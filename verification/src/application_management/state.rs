//! The state of the images: which image sits in which slot.

use vstd::prelude::*;
use crate::application_management::failure::{ErrorPayload, COMMAND_STATE};
use crate::cbor::value::{
    entry_views, item_views, lemma_view_of_parts, within_depth, Item, Value, MAX_DEPTH,
};
use crate::record::{entries_of, field, flag, flag_in, int_item, int_value, lemma_field_add, lemma_field_one, lemma_int_item, lookup, maybe, one, opt_bytes, opt_bytes_in, opt_bytes_item, opt_i32, opt_i32_in, opt_u32, opt_u32_in, put, put_optional, record_value, text_in, u32_in, Entries, lemma_field_without};
use crate::shape::{empty_record, empty_value, is_record, is_record_value, is_scalar, lemma_flat_record, lemma_reasoned_error_round_trip,  lemma_with_optional_round_trip, lemma_within_deeper, reasoned_error_in, reasoned_error_of, reasoned_error_record, reasoned_error_value, with_optional, with_optional_in, with_optional_of, with_optional_value};
use crate::smp::{Group, OpCode, Payload, Response, SmpFrame};

verus! {

/// Asks for the state of the images.
#[derive(Debug, Clone, PartialEq, Eq)]
pub struct GetStateRequest {}

impl View for GetStateRequest {
    type V = ();

    open spec fn view(&self) -> () {
        ()
    }
}

impl Payload for GetStateRequest {
    open spec fn record(m: ()) -> Item {
        empty_record()
    }

    open spec fn from_record(it: Item) -> Option<()> {
        if is_record(it) {
            Some(())
        } else {
            None
        }
    }

    proof fn lemma_record_round_trip(m: ()) {
        lemma_flat_record(Seq::empty());
        lemma_within_deeper(Self::record(m), 1, MAX_DEPTH as nat);
    }

    fn to_value(&self) -> (value: Value) {
        empty_value()
    }

    fn from_value(value: &Value) -> (r: Option<Self>) {
        if is_record_value(value) {
            Some(GetStateRequest {  })
        } else {
            None
        }
    }
}

/// The frame that asks for the state of the images.
pub fn get_state(sequence: u8) -> (frame: SmpFrame<GetStateRequest>)
    ensures
        frame@ == (SmpFrame {
            operation: OpCode::ReadRequest,
            flags: 0,
            group: Group::ApplicationManagement,
            sequence,
            command: COMMAND_STATE,
            data: (),
        }),
{
    SmpFrame::new(
        OpCode::ReadRequest,
        sequence,
        Group::ApplicationManagement,
        COMMAND_STATE,
        GetStateRequest {  },
    )
}

/// What the device says of the image in one slot.
#[derive(Debug, Clone, PartialEq, Eq)]
pub struct ImageState {
    /// The number of the image, where the device has more than one.
    pub image: Option<u32>,
    pub slot: u32,
    pub version: String,
    pub hash: Option<Vec<u8>>,
    pub bootable: bool,
    pub pending: bool,
    pub confirmed: bool,
    pub active: bool,
    pub permanent: bool,
}

/// An image slot descriptor as a mathematical value.
pub struct ImageStateModel {
    pub image: Option<u32>,
    pub slot: u32,
    pub version: Seq<char>,
    pub hash: Option<Seq<u8>>,
    pub bootable: bool,
    pub pending: bool,
    pub confirmed: bool,
    pub active: bool,
    pub permanent: bool,
}

impl View for ImageState {
    type V = ImageStateModel;

    open spec fn view(&self) -> ImageStateModel {
        ImageStateModel {
            image: self.image,
            slot: self.slot,
            version: self.version@,
            hash: match self.hash {
                Some(h) => Some(h@),
                None => None,
            },
            bootable: self.bootable,
            pending: self.pending,
            confirmed: self.confirmed,
            active: self.active,
            permanent: self.permanent,
        }
    }
}

/// The item of an optional image number.
pub open spec fn opt_u32_item(x: Option<u32>) -> Option<Item> {
    match x {
        Some(n) => Some(Item::Unsigned(n as u64)),
        None => None,
    }
}

/// The entries of a slot descriptor: `image` where there is a number, `slot`,
/// `version`, `hash` where there is one, and the five flags.
pub open spec fn image_entries(m: ImageStateModel) -> Entries {
    maybe("image"@, opt_u32_item(m.image)) + one("slot"@, Item::Unsigned(m.slot as u64)) + one(
        "version"@,
        Item::Text(m.version),
    ) + maybe("hash"@, opt_bytes_item(m.hash)) + one("bootable"@, Item::Bool(m.bootable)) + one(
        "pending"@,
        Item::Bool(m.pending),
    ) + one("confirmed"@, Item::Bool(m.confirmed)) + one("active"@, Item::Bool(m.active)) + one(
        "permanent"@,
        Item::Bool(m.permanent),
    )
}

/// The record of a slot descriptor.
pub open spec fn image_record(m: ImageStateModel) -> Item {
    Item::TextMap(image_entries(m))
}

/// The slot descriptor that a record is. The record holds `slot` and
/// `version` and may hold `image`, `hash` and the five flags, each of its
/// type; a flag that it does not hold is `false`, and what else it holds is
/// passed over.
pub open spec fn image_of(it: Item) -> Option<ImageStateModel> {
    match it {
        Item::TextMap(e) => match (
            opt_u32(field(e, "image"@)),
            field(e, "slot"@),
            field(e, "version"@),
            opt_bytes(field(e, "hash"@)),
        ) {
            (Some(image), Some(Item::Unsigned(slot)), Some(Item::Text(version)), Some(hash)) =>
                match (
                    flag(field(e, "bootable"@)),
                    flag(field(e, "pending"@)),
                    flag(field(e, "confirmed"@)),
                    flag(field(e, "active"@)),
                    flag(field(e, "permanent"@)),
                ) {
                    (
                        Some(bootable),
                        Some(pending),
                        Some(confirmed),
                        Some(active),
                        Some(permanent),
                    ) => if slot <= u32::MAX {
                        Some(
                            ImageStateModel {
                                image,
                                slot: slot as u32,
                                version,
                                hash,
                                bootable,
                                pending,
                                confirmed,
                                active,
                                permanent,
                            },
                        )
                    } else {
                        None
                    },
                    _ => None,
                },
            _ => None,
        },
        _ => None,
    }
}

/// What is known of the nine field names of a slot descriptor: enough to
/// tell any two of them apart.
pub proof fn lemma_image_keys()
    ensures
        "image"@.len() == 5,
        "slot"@.len() == 4,
        "version"@.len() == 7,
        "hash"@.len() == 4,
        "bootable"@.len() == 8,
        "pending"@.len() == 7,
        "confirmed"@.len() == 9,
        "active"@.len() == 6,
        "permanent"@.len() == 9,
        "slot"@[0] == 's',
        "hash"@[0] == 'h',
        "version"@[0] == 'v',
        "pending"@[0] == 'p',
        "confirmed"@[0] == 'c',
        "permanent"@[0] == 'p',
{
    reveal_strlit("image");
    reveal_strlit("slot");
    reveal_strlit("version");
    reveal_strlit("hash");
    reveal_strlit("bootable");
    reveal_strlit("pending");
    reveal_strlit("confirmed");
    reveal_strlit("active");
    reveal_strlit("permanent");
}

/// A slot descriptor is read back from its record, which is nested one deep.
pub proof fn lemma_image_round_trip(m: ImageStateModel)
    ensures
        image_of(image_record(m)) == Some(m),
        within_depth(image_record(m), 1),
{
    broadcast use {lemma_field_add, lemma_field_one};

    lemma_image_keys();
    let e = image_entries(m);
    assert(field(e, "image"@) == opt_u32_item(m.image));
    assert(field(e, "slot"@) == Some(Item::Unsigned(m.slot as u64)));
    assert(field(e, "version"@) == Some(Item::Text(m.version)));
    assert(field(e, "hash"@) == opt_bytes_item(m.hash));
    assert(field(e, "bootable"@) == Some(Item::Bool(m.bootable)));
    assert(field(e, "pending"@) == Some(Item::Bool(m.pending)));
    assert(field(e, "confirmed"@) == Some(Item::Bool(m.confirmed)));
    assert(field(e, "active"@) == Some(Item::Bool(m.active)));
    assert(field(e, "permanent"@) == Some(Item::Bool(m.permanent)));
    assert(image_of(image_record(m)) == Some(m));
    assert forall|i: int| 0 <= i < e.len() implies is_scalar((#[trigger] e[i]).1) by {
        lemma_image_entries_scalar(m, i);
    }
    lemma_flat_record(e);
}

/// No field of a slot descriptor is an array or a map.
proof fn lemma_image_entries_scalar(m: ImageStateModel, i: int)
    requires
        0 <= i < image_entries(m).len(),
    ensures
        is_scalar(image_entries(m)[i].1),
{
    let a = maybe("image"@, opt_u32_item(m.image));
    let b = maybe("hash"@, opt_bytes_item(m.hash));
    let front = a + one("slot"@, Item::Unsigned(m.slot as u64)) + one(
        "version"@,
        Item::Text(m.version),
    );
    let e = image_entries(m);
    assert(e =~= front + b + one("bootable"@, Item::Bool(m.bootable)) + one(
        "pending"@,
        Item::Bool(m.pending),
    ) + one("confirmed"@, Item::Bool(m.confirmed)) + one("active"@, Item::Bool(m.active)) + one(
        "permanent"@,
        Item::Bool(m.permanent),
    ));
    if i < a.len() {
        assert(e[i] == a[i]);
    } else if i < front.len() {
    } else if i < front.len() + b.len() {
        assert(e[i] == b[i - front.len()]);
    } else {
    }
}

impl ImageState {
    /// The record of this slot descriptor.
    pub fn to_value(&self) -> (value: Value)
        ensures
            value@ == image_record(self@),
    {
        let mut entries: Vec<(String, Value)> = Vec::new();
        assert(entry_views(entries@) =~= Seq::<(Seq<char>, Item)>::empty());
        let image = match self.image {
            Some(n) => Some(Value::Unsigned(n as u64)),
            None => None,
        };
        let hash = match &self.hash {
            Some(h) => Some(Value::Bytes(vstd::slice::slice_to_vec(h.as_slice()))),
            None => None,
        };
        put_optional(&mut entries, "image", image);
        put(&mut entries, "slot", Value::Unsigned(self.slot as u64));
        put(&mut entries, "version", Value::Text(self.version.clone()));
        put_optional(&mut entries, "hash", hash);
        put(&mut entries, "bootable", Value::Bool(self.bootable));
        put(&mut entries, "pending", Value::Bool(self.pending));
        put(&mut entries, "confirmed", Value::Bool(self.confirmed));
        put(&mut entries, "active", Value::Bool(self.active));
        put(&mut entries, "permanent", Value::Bool(self.permanent));
        assert(entry_views(entries@) =~= image_entries(self@));
        record_value(entries)
    }

    /// The slot descriptor that a value is.
    pub fn from_value(value: &Value) -> (r: Option<ImageState>)
        ensures
            match image_of(value@) {
                Some(m) => r matches Some(state) && state@ == m,
                None => r is None,
            },
    {
        let entries = match entries_of(value) {
            Some(entries) => entries,
            None => {
                return None;
            },
        };
        let image = lookup(entries, "image");
        let slot = lookup(entries, "slot");
        let version = lookup(entries, "version");
        let hash = lookup(entries, "hash");
        let bootable = lookup(entries, "bootable");
        let pending = lookup(entries, "pending");
        let confirmed = lookup(entries, "confirmed");
        let active = lookup(entries, "active");
        let permanent = lookup(entries, "permanent");
        let (slot, version) = match (slot, version) {
            (Some(s), Some(v)) => match (u32_in(s), text_in(v)) {
                (Some(slot), Some(version)) => (slot, version),
                _ => {
                    return None;
                },
            },
            _ => {
                return None;
            },
        };
        match (
            opt_u32_in(image),
            opt_bytes_in(hash),
            flag_in(bootable),
            flag_in(pending),
            flag_in(confirmed),
            flag_in(active),
            flag_in(permanent),
        ) {
            (
                Some(image),
                Some(hash),
                Some(bootable),
                Some(pending),
                Some(confirmed),
                Some(active),
                Some(permanent),
            ) => Some(
                ImageState {
                    image,
                    slot,
                    version,
                    hash,
                    bootable,
                    pending,
                    confirmed,
                    active,
                    permanent,
                },
            ),
            _ => None,
        }
    }
}

/// What the device says of its images.
#[derive(Debug, Clone, PartialEq, Eq)]
pub struct GetStatePayload {
    pub images: Vec<ImageState>,
    pub split_status: Option<i32>,
}

/// The state of the images as a mathematical value.
pub struct GetStateModel {
    pub images: Seq<ImageStateModel>,
    pub split_status: Option<i32>,
}

/// What a sequence of slot descriptors stands for, one by one.
pub open spec fn image_views(images: Seq<ImageState>) -> Seq<ImageStateModel> {
    Seq::new(images.len(), |i: int| images[i]@)
}

impl View for GetStatePayload {
    type V = GetStateModel;

    open spec fn view(&self) -> GetStateModel {
        GetStateModel { images: image_views(self.images@), split_status: self.split_status }
    }
}

/// The records of a sequence of slot descriptors.
pub open spec fn image_items(images: Seq<ImageStateModel>) -> Seq<Item> {
    Seq::new(images.len(), |i: int| image_record(images[i]))
}

/// The slot descriptors that an item is: an array of their records.
pub open spec fn as_image_list(it: Item) -> Option<Seq<ImageStateModel>> {
    match it {
        Item::Array(items) => if forall|i: int|
            0 <= i < items.len() ==> image_of(#[trigger] items[i]) is Some {
            Some(Seq::new(items.len(), |i: int| image_of(items[i]).unwrap()))
        } else {
            None
        },
        _ => None,
    }
}

/// The item of an optional signed integer.
pub open spec fn opt_int_item(x: Option<i32>) -> Option<Item> {
    match x {
        Some(n) => Some(int_item(n)),
        None => None,
    }
}

/// The record of the state of the images: the slot descriptors under
/// `images`, and the split status under `splitStatus` where there is one.
pub open spec fn state_record(m: GetStateModel) -> Item {
    with_optional(
        "images"@,
        Item::Array(image_items(m.images)),
        "splitStatus"@,
        opt_int_item(m.split_status),
    )
}

/// The state of the images that a record is. The record holds `images`, an
/// array of slot descriptors, and may hold `splitStatus`, a signed 32-bit
/// integer.
pub open spec fn state_of(it: Item) -> Option<GetStateModel> {
    match with_optional_of(it, "images"@, "splitStatus"@) {
        Some((list, split)) => match (as_image_list(list), opt_i32(split)) {
            (Some(images), Some(split_status)) => Some(GetStateModel { images, split_status }),
            _ => None,
        },
        None => None,
    }
}

/// The field names of the state and of an error differ from one another.
pub proof fn lemma_state_keys()
    ensures
        "images"@ != "splitStatus"@,
        "images"@ != "rc"@,
        "images"@ != "rsn"@,
        "splitStatus"@ != "rc"@,
        "splitStatus"@ != "rsn"@,
        "rc"@ != "rsn"@,
{
    reveal_strlit("images");
    reveal_strlit("splitStatus");
    reveal_strlit("rc");
    reveal_strlit("rsn");
    assert("images"@.len() == 6);
    assert("splitStatus"@.len() == 11);
    assert("rc"@.len() == 2);
    assert("rsn"@.len() == 3);
}

/// The state of the images is read back from its record, which is nested
/// three deep.
pub proof fn lemma_state_round_trip(m: GetStateModel)
    ensures
        state_of(state_record(m)) == Some(m),
        within_depth(state_record(m), 3),
{
    lemma_state_keys();
    let list = Item::Array(image_items(m.images));
    let items = image_items(m.images);
    lemma_with_optional_round_trip("images"@, list, "splitStatus"@, opt_int_item(m.split_status));
    assert forall|i: int| 0 <= i < items.len() implies image_of(#[trigger] items[i]) == Some(
        m.images[i],
    ) && within_depth(items[i], 1) by {
        lemma_image_round_trip(m.images[i]);
    }
    assert(Seq::new(items.len(), |i: int| image_of(items[i]).unwrap()) =~= m.images);
    match m.split_status {
        Some(n) => {
            lemma_int_item(n);
        },
        None => {},
    }
    reveal_with_fuel(within_depth, 2);
    assert(within_depth(list, 2));
    let e = one("images"@, list) + maybe("splitStatus"@, opt_int_item(m.split_status));
    assert forall|i: int| 0 <= i < e.len() implies within_depth((#[trigger] e[i]).1, 2) by {
        if i == 0 {
            assert(e[0].1 == list);
        } else {
            assert(e[i] == maybe("splitStatus"@, opt_int_item(m.split_status))[i - 1]);
        }
    }
}

impl GetStatePayload {
    /// The record of this state.
    pub fn to_value(&self) -> (value: Value)
        ensures
            value@ == state_record(self@),
    {
        let mut items: Vec<Value> = Vec::new();
        let mut i: usize = 0;
        while i < self.images.len()
            invariant
                i <= self.images.len(),
                items@.len() == i,
                forall|k: int|
                    0 <= k < i ==> (#[trigger] items@[k])@ == image_record(self.images@[k]@),
            decreases self.images.len() - i,
        {
            items.push(self.images[i].to_value());
            i = i + 1;
        }
        let list = Value::Array(items);
        proof {
            lemma_view_of_parts(list);
            assert(item_views(items@) =~= image_items(image_views(self.images@)));
        }
        let split = match self.split_status {
            Some(n) => Some(int_value(n)),
            None => None,
        };
        with_optional_value("images", list, "splitStatus", split)
    }

    /// The state of the images that a value is.
    pub fn from_value(value: &Value) -> (r: Option<GetStatePayload>)
        ensures
            match state_of(value@) {
                Some(m) => r matches Some(state) && state@ == m,
                None => r is None,
            },
    {
        let (list, split) = match with_optional_in(value, "images", "splitStatus") {
            Some(found) => found,
            None => {
                return None;
            },
        };
        proof {
            lemma_view_of_parts(*list);
        }
        let items = match list {
            Value::Array(items) => items,
            _ => {
                return None;
            },
        };
        let ghost all = item_views(items@);
        let mut images: Vec<ImageState> = Vec::new();
        let mut i: usize = 0;
        while i < items.len()
            invariant
                i <= items.len(),
                all == item_views(items@),
                list@ == Item::Array(all),
                with_optional_of(value@, "images"@, "splitStatus"@) is Some,
                with_optional_of(value@, "images"@, "splitStatus"@).unwrap().0 == list@,
                images@.len() == i,
                forall|k: int| 0 <= k < i ==> image_of(#[trigger] all[k]) is Some,
                forall|k: int|
                    0 <= k < i ==> (#[trigger] images@[k])@ == image_of(all[k]).unwrap(),
            decreases items.len() - i,
        {
            match ImageState::from_value(&items[i]) {
                Some(image) => {
                    images.push(image);
                },
                None => {
                    assert(image_of(all[i as int]) is None);
                    return None;
                },
            }
            i = i + 1;
        }
        assert(image_views(images@) =~= Seq::new(all.len(), |i: int| image_of(all[i]).unwrap()));
        match opt_i32_in(split) {
            Some(split_status) => Some(GetStatePayload { images, split_status }),
            None => None,
        }
    }
}

/// The answer to a request for the state of the images.
#[derive(Debug, Clone, PartialEq, Eq)]
pub enum GetImageStateResult {
    Success(GetStatePayload),
    Failure(ErrorPayload),
}

impl View for GetImageStateResult {
    type V = Result<GetStateModel, (i32, Option<Seq<char>>)>;

    open spec fn view(&self) -> Result<GetStateModel, (i32, Option<Seq<char>>)> {
        match self {
            GetImageStateResult::Success(payload) => Ok(payload@),
            GetImageStateResult::Failure(err) => Err(err@),
        }
    }
}

impl GetImageStateResult {
    /// The success, or what the device refused with.
    pub fn into_result(self) -> (r: Result<GetStatePayload, ErrorPayload>)
        ensures
            match self@ {
                Ok(m) => r matches Ok(payload) && payload@ == m,
                Err(e) => r matches Err(err) && err@ == e,
            },
    {
        match self {
            GetImageStateResult::Success(payload) => Ok(payload),
            GetImageStateResult::Failure(err) => Err(err),
        }
    }
}

impl Payload for GetImageStateResult {
    open spec fn record(m: Result<GetStateModel, (i32, Option<Seq<char>>)>) -> Item {
        match m {
            Ok(state) => state_record(state),
            Err((rc, reason)) => reasoned_error_record(rc, reason),
        }
    }

    open spec fn from_record(it: Item) -> Option<Result<GetStateModel, (i32, Option<Seq<char>>)>> {
        match state_of(it) {
            Some(state) => Some(Ok(state)),
            None => match reasoned_error_of(it) {
                Some(e) => Some(Err(e)),
                None => None,
            },
        }
    }

    proof fn lemma_record_round_trip(m: Result<GetStateModel, (i32, Option<Seq<char>>)>) {
        lemma_state_keys();
        match m {
            Ok(state) => {
                lemma_state_round_trip(state);
                lemma_within_deeper(Self::record(m), 3, MAX_DEPTH as nat);
            },
            Err((rc, reason)) => {
                lemma_reasoned_error_round_trip(rc, reason);
                lemma_within_deeper(Self::record(m), 1, MAX_DEPTH as nat);
            },
        }
    }

    fn to_value(&self) -> (value: Value) {
        match self {
            GetImageStateResult::Success(payload) => payload.to_value(),
            GetImageStateResult::Failure(err) => reasoned_error_value(err.rc, &err.rsn),
        }
    }

    fn from_value(value: &Value) -> (r: Option<Self>) {
        match GetStatePayload::from_value(value) {
            Some(payload) => Some(GetImageStateResult::Success(payload)),
            None => match reasoned_error_in(value) {
                Some((rc, rsn)) => Some(GetImageStateResult::Failure(ErrorPayload { rc, rsn })),
                None => None,
            },
        }
    }
}

impl Response for GetImageStateResult {
    open spec fn success_shaped(it: Item) -> bool {
        state_of(it) is Some
    }

    open spec fn error_shaped(it: Item) -> bool {
        !Self::success_shaped(it) && reasoned_error_of(it) is Some
    }

    open spec fn is_success(m: Result<GetStateModel, (i32, Option<Seq<char>>)>) -> bool {
        m is Ok
    }

    open spec fn knows(key: Seq<char>) -> bool {
        key == "images"@ || key == "splitStatus"@ || key == "rc"@ || key == "rsn"@
    }

    proof fn lemma_further_field(before: Entries, key: Seq<char>, item: Item, after: Entries) {
        lemma_field_without(before, key, item, after, "images"@);
        lemma_field_without(before, key, item, after, "splitStatus"@);
        lemma_field_without(before, key, item, after, "rc"@);
        lemma_field_without(before, key, item, after, "rsn"@);
    }

    proof fn lemma_two_shapes(it: Item) {
        lemma_state_keys();
    }
}

} // verus!
