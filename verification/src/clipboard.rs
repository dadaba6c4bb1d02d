//! What the X11 clipboard decides about formats and names: which formats a string is offered
//! in, which clipboard format to prefer, which target names to report, and which of the text
//! formats gives the clipboard's string.

use vstd::prelude::*;
use vstd::utf8::{decode_utf8, valid_utf8};
use vstd::string::{StrSliceExecFns, StringSliceAdditionalSpecFns};

verus! {

/// The number of formats that text is read from and offered in.
pub const STRING_TARGET_COUNT: usize = 5;

/// The text formats, in the order they are tried.
pub open spec fn string_target(i: int) -> Seq<char> {
    if i == 0 {
        "UTF8_STRING"@
    } else if i == 1 {
        "TEXT"@
    } else if i == 2 {
        "STRING"@
    } else if i == 3 {
        "text/plain;charset=utf-8"@
    } else {
        "text/plain"@
    }
}

/// The name of the text format at position `i`.
fn string_target_name(i: usize) -> (name: &'static str)
    requires
        i < STRING_TARGET_COUNT,
    ensures
        name@ == string_target(i as int),
{
    if i == 0 {
        "UTF8_STRING"
    } else if i == 1 {
        "TEXT"
    } else if i == 2 {
        "STRING"
    } else if i == 3 {
        "text/plain;charset=utf-8"
    } else {
        "text/plain"
    }
}

/// std's `String::from_utf8`: the string that `bytes` encode when they are valid UTF-8, and
/// nothing otherwise. The contract is the one std documents, written with vstd's model of UTF-8.
#[verifier::external_body]
pub(crate) fn string_from_utf8(bytes: Vec<u8>) -> (s: Option<String>)
    ensures
        s is Some <==> valid_utf8(bytes@),
        s matches Some(s) ==> s@ == decode_utf8(bytes@),
{
    String::from_utf8(bytes).ok()
}

/// Data in one clipboard format.
pub struct ClipboardFormat {
    /// The name of the format.
    pub identifier: &'static str,
    /// The data, in that format.
    pub data: Vec<u8>,
}

/// The clipboard formats a string is offered in: its UTF-8 bytes under each text format name,
/// in the order of the text formats.
pub fn string_formats(s: &str) -> (formats: Vec<ClipboardFormat>)
    ensures
        formats.len() == STRING_TARGET_COUNT,
        forall|i: int|
            0 <= i < STRING_TARGET_COUNT ==> {
                &&& (#[trigger] formats[i]).identifier@ == string_target(i)
                &&& formats[i].data@ == s.spec_bytes()
            },
{
    let mut formats: Vec<ClipboardFormat> = Vec::new();
    let mut i: usize = 0;
    while i < STRING_TARGET_COUNT
        invariant
            i <= STRING_TARGET_COUNT,
            formats.len() == i,
            forall|k: int|
                0 <= k < i ==> {
                    &&& (#[trigger] formats[k]).identifier@ == string_target(k)
                    &&& formats[k].data@ == s.spec_bytes()
                },
        decreases STRING_TARGET_COUNT - i,
    {
        let data = s.as_bytes_vec();
        formats.push(ClipboardFormat { identifier: string_target_name(i), data });
        i = i + 1;
    }
    formats
}

/// Some string in `available` is `name`.
pub open spec fn is_available(name: Seq<char>, available: Seq<String>) -> bool {
    exists|j: int| 0 <= j < available.len() && (#[trigger] available[j])@ == name
}

/// The first of `formats`, in their order, that `available` names; `None` when it names none.
pub fn preferred_format(formats: &[&'static str], available: &Vec<String>) -> (found: Option<&'static str>)
    ensures
        found matches Some(f) ==> exists|i: int|
            0 <= i < formats.len() && #[trigger] formats[i] == f
            && is_available(f@, available@)
            && forall|k: int| 0 <= k < i ==> !is_available((#[trigger] formats[k])@, available@),
        found is None ==> forall|i: int| 0 <= i < formats.len() ==> !is_available((#[trigger] formats[i])@, available@),
{
    let mut i: usize = 0;
    while i < formats.len()
        invariant
            i <= formats.len(),
            forall|k: int| 0 <= k < i ==> !is_available((#[trigger] formats[k])@, available@),
        decreases formats.len() - i,
    {
        let wanted = str::to_owned(formats[i]);
        let mut j: usize = 0;
        while j < available.len()
            invariant
                i < formats.len(),
                j <= available.len(),
                forall|k: int| 0 <= k < i ==> !is_available((#[trigger] formats[k])@, available@),
                wanted@ == formats[i as int]@,
                forall|m: int| 0 <= m < j ==> (#[trigger] available[m])@ != wanted@,
            decreases available.len() - j,
        {
            if wanted == available[j] {
                assert(available@[j as int]@ == formats[i as int]@);
                return Some(formats[i]);
            }
            j = j + 1;
        }
        assert(!is_available(formats[i as int]@, available@));
        i = i + 1;
    }
    None
}

/// The strings that the valid UTF-8 entries among `names` encode, in order; missing entries and
/// entries that are not valid UTF-8 are left out.
pub open spec fn decoded_names(names: Seq<Option<Seq<u8>>>) -> Seq<Seq<char>>
    decreases names.len(),
{
    if names.len() == 0 {
        Seq::empty()
    } else {
        let rest = decoded_names(names.drop_last());
        match names.last() {
            Some(bytes) => if valid_utf8(bytes) {
                rest.push(decode_utf8(bytes))
            } else {
                rest
            },
            None => rest,
        }
    }
}

/// A single name that is present and valid UTF-8 decodes to exactly its string, whatever its
/// length; a missing name or one that is not valid UTF-8 gives nothing.
pub proof fn lemma_names_of_one(entry: Option<Seq<u8>>)
    ensures
        entry is Some && valid_utf8(entry->0) ==> decoded_names(seq![entry]) == seq![decode_utf8(entry->0)],
        entry is None || !valid_utf8(entry->0) ==> decoded_names(seq![entry]).len() == 0,
{
    let s = seq![entry];
    assert(s.drop_last() =~= Seq::<Option<Seq<u8>>>::empty());
    assert(decoded_names(s.drop_last()) == Seq::<Seq<char>>::empty());
    assert(Seq::<Seq<char>>::empty().push(decode_utf8(entry->0)) =~= seq![decode_utf8(entry->0)]);
}

/// The names of two lists one after the other are the names of the first, then those of the
/// second.
pub proof fn lemma_names_concat(a: Seq<Option<Seq<u8>>>, b: Seq<Option<Seq<u8>>>)
    ensures
        decoded_names(a + b) == decoded_names(a) + decoded_names(b),
    decreases b.len(),
{
    if b.len() == 0 {
        assert(a + b =~= a);
        assert(decoded_names(a) + decoded_names(b) =~= decoded_names(a));
    } else {
        lemma_names_concat(a, b.drop_last());
        assert((a + b).drop_last() =~= a + b.drop_last());
        assert((a + b).last() == b.last());
        let rest = decoded_names(a) + decoded_names(b.drop_last());
        match b.last() {
            Some(bytes) => {
                if valid_utf8(bytes) {
                    assert(rest.push(decode_utf8(bytes)) =~= decoded_names(a) + decoded_names(b.drop_last()).push(decode_utf8(bytes)));
                }
            },
            None => {},
        }
    }
}

/// The type names the clipboard owner offers, from the names of its target atoms as the server
/// returned them (`None` where the request or its reply failed).
pub fn type_names(names: Vec<Option<Vec<u8>>>) -> (decoded: Vec<String>)
    ensures
        decoded.deep_view() == decoded_names(names.deep_view()),
{
    let mut decoded: Vec<String> = Vec::new();
    let mut i: usize = 0;
    while i < names.len()
        invariant
            i <= names.len(),
            decoded.deep_view() == decoded_names(names.deep_view().take(i as int)),
        decreases names.len() - i,
    {
        let ghost nv = names.deep_view();
        let ghost before = decoded.deep_view();
        assert(nv.take(i + 1).drop_last() == nv.take(i as int));
        assert(nv.take(i + 1).last() == nv[i as int]);
        match &names[i] {
            Some(bytes) => {
                assert(bytes.deep_view() =~= bytes@);
                assert(nv[i as int] == Some(bytes@));
                let copy = bytes.clone();
                assert(copy@ =~= bytes@);
                match string_from_utf8(copy) {
                    Some(name) => {
                        decoded.push(name);
                        assert(decoded.deep_view() =~= before.push(name@));
                    },
                    None => {},
                }
            },
            None => {},
        }
        i = i + 1;
    }
    assert(names.deep_view().take(names.len() as int) == names.deep_view());
    decoded
}

/// A search for the clipboard's string: the text formats are fetched one after another, in
/// their order, until one holds valid UTF-8.
pub struct StringLookup {
    index: usize,
}

/// What a search does after the contents of one format arrived.
pub enum LookupStep {
    /// Fetch the contents of the next format and hand them to this search.
    Fetch(StringLookup),
    /// The clipboard's string.
    Found(String),
    /// No text format held valid UTF-8.
    NotFound,
}

/// The mathematical model of a search step; `Fetch` holds the position of the next format.
pub enum LookupModel {
    Fetch(nat),
    Found(Seq<char>),
    NotFound,
}

impl View for LookupStep {
    type V = LookupModel;

    open spec fn view(&self) -> LookupModel {
        match self {
            LookupStep::Fetch(next) => LookupModel::Fetch(next.position()),
            LookupStep::Found(s) => LookupModel::Found(s@),
            LookupStep::NotFound => LookupModel::NotFound,
        }
    }
}

/// Contents that are present and valid UTF-8.
pub open spec fn holds_text(contents: Option<Seq<u8>>) -> bool {
    contents matches Some(bytes) && valid_utf8(bytes)
}

/// What the search at `position` does with the contents of that format.
pub open spec fn lookup_step(position: nat, contents: Option<Seq<u8>>) -> LookupModel {
    if holds_text(contents) {
        LookupModel::Found(decode_utf8(contents->0))
    } else if position + 1 < STRING_TARGET_COUNT {
        LookupModel::Fetch(position + 1)
    } else {
        LookupModel::NotFound
    }
}

/// Where a search that starts at `position` ends when format `i` holds `contents[i]`.
pub open spec fn run_lookup(position: nat, contents: Seq<Option<Seq<u8>>>) -> LookupModel
    decreases STRING_TARGET_COUNT - position,
{
    if position >= STRING_TARGET_COUNT {
        LookupModel::NotFound
    } else {
        match lookup_step(position, contents[position as int]) {
            LookupModel::Fetch(next) => run_lookup(next, contents),
            other => other,
        }
    }
}

impl StringLookup {
    #[verifier::type_invariant]
    spec fn inv(&self) -> bool {
        self.index < STRING_TARGET_COUNT
    }

    /// The position, in the order of the text formats, of the format whose contents the search
    /// waits for.
    pub closed spec fn position(&self) -> nat {
        self.index as nat
    }

    /// A search that starts with the first text format.
    pub fn new() -> (lookup: Self)
        ensures
            lookup.position() == 0,
    {
        StringLookup { index: 0 }
    }

    /// The name of the format whose contents the search waits for.
    pub fn target(&self) -> (name: &'static str)
        ensures
            self.position() < STRING_TARGET_COUNT,
            name@ == string_target(self.position() as int),
    {
        proof {
            use_type_invariant(self);
        }
        string_target_name(self.index)
    }

    /// Takes the contents of the awaited format (`None` when it could not be had) and decides.
    pub fn receive(self, contents: Option<Vec<u8>>) -> (step: LookupStep)
        ensures
            step@ == lookup_step(self.position(), contents.deep_view()),
    {
        proof {
            use_type_invariant(&self);
        }
        let ghost given = contents.deep_view();
        match contents {
            Some(bytes) => {
                assert(bytes.deep_view() =~= bytes@);
                match string_from_utf8(bytes) {
                    Some(text) => {
                        return LookupStep::Found(text);
                    },
                    None => {},
                }
            },
            None => {},
        }
        if self.index + 1 < STRING_TARGET_COUNT {
            LookupStep::Fetch(StringLookup { index: self.index + 1 })
        } else {
            LookupStep::NotFound
        }
    }
}

/// Search from `position` on: it ends with the text of the first format at or after `position`
/// that holds text, and with nothing when none does.
proof fn lemma_run_lookup_from(position: nat, contents: Seq<Option<Seq<u8>>>)
    requires
        contents.len() == STRING_TARGET_COUNT,
        position <= STRING_TARGET_COUNT,
    ensures
        forall|i: int|
            position <= i < STRING_TARGET_COUNT && #[trigger] holds_text(contents[i])
            && (forall|j: int| position <= j < i ==> !holds_text(#[trigger] contents[j]))
            ==> run_lookup(position, contents) == LookupModel::Found(decode_utf8(contents[i]->0)),
        (forall|i: int| position <= i < STRING_TARGET_COUNT ==> !holds_text(#[trigger] contents[i]))
            ==> run_lookup(position, contents) == LookupModel::NotFound,
    decreases STRING_TARGET_COUNT - position,
{
    if position < STRING_TARGET_COUNT {
        lemma_run_lookup_from(position + 1, contents);
        assert forall|i: int|
            position <= i < STRING_TARGET_COUNT && #[trigger] holds_text(contents[i])
            && (forall|j: int| position <= j < i ==> !holds_text(#[trigger] contents[j]))
            implies run_lookup(position, contents) == LookupModel::Found(decode_utf8(contents[i]->0)) by {
            if i > position {
                assert(!holds_text(contents[position as int]));
            }
        }
        if forall|i: int| position <= i < STRING_TARGET_COUNT ==> !holds_text(#[trigger] contents[i]) {
            assert(!holds_text(contents[position as int]));
        }
    }
}

/// A search from the first text format ends with the text of the first format, in the order of
/// the text formats, whose contents are valid UTF-8, and with nothing when none are.
pub proof fn lemma_lookup_finds_first_text(contents: Seq<Option<Seq<u8>>>)
    requires
        contents.len() == STRING_TARGET_COUNT,
    ensures
        forall|i: int|
            0 <= i < STRING_TARGET_COUNT && #[trigger] holds_text(contents[i])
            && (forall|j: int| 0 <= j < i ==> !holds_text(#[trigger] contents[j]))
            ==> run_lookup(0, contents) == LookupModel::Found(decode_utf8(contents[i]->0)),
        (forall|i: int| 0 <= i < STRING_TARGET_COUNT ==> !holds_text(#[trigger] contents[i]))
            ==> run_lookup(0, contents) == LookupModel::NotFound,
{
    lemma_run_lookup_from(0, contents);
}

} // verus!
