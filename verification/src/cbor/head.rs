//! The head of a data item: its major type and its argument.

use vstd::prelude::*;

verus! {

/// Major type of an unsigned integer.
pub const MAJOR_UNSIGNED: u8 = 0;

/// Major type of a negative integer; the argument `n` stands for `-1 - n`.
pub const MAJOR_NEGATIVE: u8 = 1;

/// Major type of a byte string; the argument is its length.
pub const MAJOR_BYTES: u8 = 2;

/// Major type of a text string; the argument is the length of its UTF-8 form.
pub const MAJOR_TEXT: u8 = 3;

/// Major type of an array; the argument is the number of its items.
pub const MAJOR_ARRAY: u8 = 4;

/// Major type of a map; the argument is the number of its entries.
pub const MAJOR_MAP: u8 = 5;

/// Major type of the simple values, among them `false`, `true` and `null`.
pub const MAJOR_SIMPLE: u8 = 7;

/// A decoded head: major type, argument, and the number of bytes it took.
pub struct Head {
    pub major: u8,
    pub arg: u64,
    pub len: nat,
}

/// The last `width` bytes of `n`, most significant first.
pub open spec fn be_bytes(n: nat, width: nat) -> Seq<u8>
    decreases width,
{
    if width == 0 {
        Seq::empty()
    } else {
        be_bytes(n / 0x100, (width - 1) as nat).push((n % 0x100) as u8)
    }
}

/// The number that the bytes of `s` spell, most significant first.
pub open spec fn be_value(s: Seq<u8>) -> nat
    decreases s.len(),
{
    if s.len() == 0 {
        0
    } else {
        be_value(s.drop_last()) * 0x100 + s.last() as nat
    }
}

/// `n` can be written in `width` bytes.
pub open spec fn fits_bytes(n: nat, width: nat) -> bool
    decreases width,
{
    if width == 0 {
        n == 0
    } else {
        fits_bytes(n / 0x100, (width - 1) as nat)
    }
}

/// `be_bytes` gives as many bytes as it is asked for.
pub proof fn lemma_be_bytes_len(n: nat, width: nat)
    ensures
        be_bytes(n, width).len() == width,
    decreases width,
{
    if width > 0 {
        lemma_be_bytes_len(n / 0x100, (width - 1) as nat);
    }
}

/// A number that fits its width is read back from its bytes.
pub proof fn lemma_be_round_trip(n: nat, width: nat)
    requires
        fits_bytes(n, width),
    ensures
        be_value(be_bytes(n, width)) == n,
    decreases width,
{
    if width > 0 {
        let shorter = be_bytes(n / 0x100, (width - 1) as nat);
        lemma_be_round_trip(n / 0x100, (width - 1) as nat);
        assert(be_bytes(n, width).drop_last() =~= shorter);
    }
}

/// What one, two, four and eight bytes spell.
pub proof fn lemma_be_value_closed(s: Seq<u8>)
    ensures
        s.len() == 1 ==> be_value(s) == s[0],
        s.len() == 2 ==> be_value(s) == s[0] * 0x100 + s[1],
        s.len() == 4 ==> be_value(s) == ((s[0] * 0x100 + s[1]) * 0x100 + s[2]) * 0x100 + s[3],
        s.len() == 8 ==> be_value(s) == ((((((s[0] * 0x100 + s[1]) * 0x100 + s[2]) * 0x100
            + s[3]) * 0x100 + s[4]) * 0x100 + s[5]) * 0x100 + s[6]) * 0x100 + s[7],
{
    let s7 = s.drop_last();
    let s6 = s7.drop_last();
    let s5 = s6.drop_last();
    let s4 = s5.drop_last();
    let s3 = s4.drop_last();
    let s2 = s3.drop_last();
    let s1 = s2.drop_last();
    let s0 = s1.drop_last();
    if s.len() == 1 {
        assert(be_value(s7) == 0);
    } else if s.len() == 2 {
        assert(be_value(s6) == 0);
        assert(be_value(s7) == s[0]);
    } else if s.len() == 4 {
        assert(be_value(s4) == 0);
        assert(be_value(s5) == s[0]);
        assert(be_value(s6) == s[0] * 0x100 + s[1]);
        assert(be_value(s7) == (s[0] * 0x100 + s[1]) * 0x100 + s[2]);
    } else if s.len() == 8 {
        assert(be_value(s0) == 0);
        assert(be_value(s1) == s[0]);
        assert(be_value(s2) == s[0] * 0x100 + s[1]);
        assert(be_value(s3) == (s[0] * 0x100 + s[1]) * 0x100 + s[2]);
        assert(be_value(s4) == ((s[0] * 0x100 + s[1]) * 0x100 + s[2]) * 0x100 + s[3]);
        assert(be_value(s5) == (((s[0] * 0x100 + s[1]) * 0x100 + s[2]) * 0x100 + s[3]) * 0x100
            + s[4]);
        assert(be_value(s6) == ((((s[0] * 0x100 + s[1]) * 0x100 + s[2]) * 0x100 + s[3]) * 0x100
            + s[4]) * 0x100 + s[5]);
        assert(be_value(s7) == (((((s[0] * 0x100 + s[1]) * 0x100 + s[2]) * 0x100 + s[3])
            * 0x100 + s[4]) * 0x100 + s[5]) * 0x100 + s[6]);
    }
}

/// The first byte of a head: the major type above five bits of information.
pub open spec fn initial_byte(major: u8, info: u8) -> u8 {
    (major * 32 + info) as u8
}

/// The width of the shortest argument that holds `arg`; 0 where `arg`
/// stands in the first byte itself.
pub open spec fn shortest_width(arg: u64) -> nat {
    if arg < 24 {
        0
    } else if arg < 0x100 {
        1
    } else if arg < 0x1_0000 {
        2
    } else if arg < 0x1_0000_0000 {
        4
    } else {
        8
    }
}

/// The information value that announces an argument of `width` bytes.
pub open spec fn info_for_width(width: nat) -> u8 {
    if width == 1 {
        24
    } else if width == 2 {
        25
    } else if width == 4 {
        26
    } else {
        27
    }
}

/// The shortest head that carries `arg` under `major`.
pub open spec fn head_bytes(major: u8, arg: u64) -> Seq<u8> {
    let width = shortest_width(arg);
    if width == 0 {
        seq![initial_byte(major, arg as u8)]
    } else {
        seq![initial_byte(major, info_for_width(width))] + be_bytes(arg as nat, width)
    }
}

/// How many bytes follow the first byte of a head with this information
/// value; `None` for the values that have no fixed-size argument.
pub open spec fn argument_width(info: u8) -> Option<nat> {
    if info < 24 {
        Some(0)
    } else if info == 24 {
        Some(1)
    } else if info == 25 {
        Some(2)
    } else if info == 26 {
        Some(4)
    } else if info == 27 {
        Some(8)
    } else {
        None
    }
}

/// The head that `s` starts with. Arguments of any width are read, also
/// where a shorter one would have done; indefinite lengths and the reserved
/// information values are no head.
pub open spec fn parse_head(s: Seq<u8>) -> Option<Head> {
    if s.len() == 0 {
        None
    } else {
        let major = s[0] / 32;
        let info = s[0] % 32;
        match argument_width(info) {
            None => None,
            Some(width) => if s.len() < 1 + width {
                None
            } else if width == 0 {
                Some(Head { major, arg: info as u64, len: 1 })
            } else {
                Some(
                    Head {
                        major,
                        arg: be_value(s.subrange(1, 1 + width as int)) as u64,
                        len: 1 + width,
                    },
                )
            },
        }
    }
}

/// A head takes between one and nine bytes.
pub proof fn lemma_head_bytes_len(major: u8, arg: u64)
    ensures
        head_bytes(major, arg).len() == 1 + shortest_width(arg),
        1 <= head_bytes(major, arg).len() <= 9,
{
    lemma_be_bytes_len(arg as nat, shortest_width(arg));
}

/// Reading back a shortest head gives the major type and argument it was
/// written from, whatever follows it.
pub proof fn lemma_head_round_trip(major: u8, arg: u64, rest: Seq<u8>)
    requires
        major < 8,
    ensures
        parse_head(head_bytes(major, arg) + rest) == Some(
            Head { major, arg, len: head_bytes(major, arg).len() },
        ),
{
    let s = head_bytes(major, arg) + rest;
    let width = shortest_width(arg);
    lemma_head_bytes_len(major, arg);
    if width == 0 {
        assert(s[0] == initial_byte(major, arg as u8));
    } else {
        assert(s[0] == initial_byte(major, info_for_width(width)));
        assert(argument_width(s[0] % 32) == Some(width));
        assert(s.subrange(1, 1 + width as int) =~= be_bytes(arg as nat, width));
        assert(fits_bytes(arg as nat, width)) by {
            reveal_with_fuel(fits_bytes, 9);
        }
        lemma_be_round_trip(arg as nat, width);
    }
}

/// Appends the shortest head for `arg` under `major`.
pub fn write_head(out: &mut Vec<u8>, major: u8, arg: u64)
    requires
        major < 8,
    ensures
        final(out)@ == old(out)@ + head_bytes(major, arg),
{
    let top: u8 = major * 32;
    proof {
        reveal_with_fuel(be_bytes, 9);
    }
    if arg < 24 {
        out.push(top + arg as u8);
    } else if arg < 0x100 {
        out.push(top + 24);
        out.push(arg as u8);
    } else if arg < 0x1_0000 {
        out.push(top + 25);
        out.push((arg / 0x100 % 0x100) as u8);
        out.push((arg % 0x100) as u8);
    } else {
        let a6: u64 = arg / 0x100;
        let a5: u64 = a6 / 0x100;
        let a4: u64 = a5 / 0x100;
        if arg < 0x1_0000_0000 {
            out.push(top + 26);
            out.push((a4 % 0x100) as u8);
            out.push((a5 % 0x100) as u8);
            out.push((a6 % 0x100) as u8);
            out.push((arg % 0x100) as u8);
        } else {
            let a3: u64 = a4 / 0x100;
            let a2: u64 = a3 / 0x100;
            let a1: u64 = a2 / 0x100;
            let a0: u64 = a1 / 0x100;
            out.push(top + 27);
            out.push((a0 % 0x100) as u8);
            out.push((a1 % 0x100) as u8);
            out.push((a2 % 0x100) as u8);
            out.push((a3 % 0x100) as u8);
            out.push((a4 % 0x100) as u8);
            out.push((a5 % 0x100) as u8);
            out.push((a6 % 0x100) as u8);
            out.push((arg % 0x100) as u8);
        }
    }
    assert(out@ =~= old(out)@ + head_bytes(major, arg));
}

/// Reads the head at `pos`, and says where the bytes after it start. There
/// is no head beyond the end of `bytes`.
pub fn read_head(bytes: &[u8], pos: usize) -> (r: Option<(u8, u64, usize)>)
    ensures
        pos <= bytes@.len() ==> match parse_head(bytes@.skip(pos as int)) {
            Some(h) => r matches Some((major, arg, next)) && major == h.major && arg == h.arg
                && next == pos + h.len && 1 <= h.len <= 9 && next <= bytes@.len(),
            None => r is None,
        },
        pos > bytes@.len() ==> r is None,
{
    let n = bytes.len();
    if pos >= n {
        return None;
    }
    let ghost s = bytes@.skip(pos as int);
    let first: u8 = bytes[pos];
    let major: u8 = first / 32;
    let info: u8 = first % 32;
    let rest: usize = n - pos - 1;
    if info < 24 {
        return Some((major, info as u64, pos + 1));
    }
    let width: usize = if info == 24 {
        1
    } else if info == 25 {
        2
    } else if info == 26 {
        4
    } else if info == 27 {
        8
    } else {
        return None;
    };
    if rest < width {
        return None;
    }
    let ghost t = s.subrange(1, 1 + width);
    proof {
        lemma_be_value_closed(t);
        assert(forall|i: int| 0 <= i < width ==> t[i] == bytes@[pos + 1 + i]);
    }
    let b0: u64 = bytes[pos + 1] as u64;
    if width == 1 {
        return Some((major, b0, pos + 2));
    }
    let b1: u64 = bytes[pos + 2] as u64;
    if width == 2 {
        return Some((major, b0 * 0x100 + b1, pos + 3));
    }
    let b2: u64 = bytes[pos + 3] as u64;
    let b3: u64 = bytes[pos + 4] as u64;
    let high: u64 = ((b0 * 0x100 + b1) * 0x100 + b2) * 0x100 + b3;
    if width == 4 {
        return Some((major, high, pos + 5));
    }
    let b4: u64 = bytes[pos + 5] as u64;
    let b5: u64 = bytes[pos + 6] as u64;
    let b6: u64 = bytes[pos + 7] as u64;
    let b7: u64 = bytes[pos + 8] as u64;
    let arg: u64 = (((high * 0x100 + b4) * 0x100 + b5) * 0x100 + b6) * 0x100 + b7;
    Some((major, arg, pos + 9))
}

} // verus!
