//! Reading JSON.
//!
//! Texts are taken apart by `serde_json`. What a message has to hold, which of its fields may be
//! missing, and of what kind each is, is decided here.

use vstd::prelude::*;
use crate::text::joined;

verus! {

/// A JSON value. A number that is whole is held as such, and every number as its text.
pub enum JsonModel {
    Null,
    Flag(bool),
    Number { whole: Option<int>, text: Seq<char> },
    Text(Seq<char>),
    List(Seq<JsonModel>),
    Object(Map<Seq<char>, JsonModel>),
}

/// `serde_json::Value`, a JSON value. It is carried here and taken apart by [`apart`] and
/// [`member`].
#[verifier::external_type_specification]
#[verifier::external_body]
pub struct ExValue(serde_json::Value);

/// What a `serde_json::Value` holds.
pub uninterp spec fn json_of(v: serde_json::Value) -> JsonModel;

/// The JSON value of a text, or why it is none.
pub uninterp spec fn json_text(s: Seq<char>) -> Result<JsonModel, Seq<char>>;

/// What some values hold.
pub open spec fn jsons_of(s: Seq<serde_json::Value>) -> Seq<JsonModel> {
    s.map_values(|v: serde_json::Value| json_of(v))
}

/// `serde_json::from_str` to a `serde_json::Value`: the value, or the message of the error. Both
/// are functions of the text.
#[verifier::external_body]
pub(crate) fn read_json(text: &str) -> (r: Result<serde_json::Value, String>)
    ensures
        match r {
            Ok(v) => json_text(text@) == Ok::<JsonModel, Seq<char>>(json_of(v)),
            Err(e) => json_text(text@) == Err::<JsonModel, Seq<char>>(e@),
        },
{
    serde_json::from_str::<serde_json::Value>(text).map_err(|e| e.to_string())
}

/// A JSON value taken apart by one level.
pub(crate) enum Piece<'a> {
    Null,
    Flag(bool),
    Number { whole: Option<i128>, text: String },
    Text(&'a str),
    List(&'a Vec<serde_json::Value>),
    Object,
}

impl<'a> Piece<'a> {
    /// Whether this is a value taken apart.
    pub(crate) open spec fn shows(self, j: JsonModel) -> bool {
        match self {
            Piece::Null => j == JsonModel::Null,
            Piece::Flag(b) => j == JsonModel::Flag(b),
            Piece::Number { whole, text } => j == (JsonModel::Number {
                whole: match whole {
                    Some(n) => Some(n as int),
                    None => None,
                },
                text: text@,
            }),
            Piece::Text(s) => j == JsonModel::Text(s@),
            Piece::List(v) => j == JsonModel::List(jsons_of(v@)),
            Piece::Object => j is Object,
        }
    }
}

/// The variants of `serde_json::Value`. A number is whole where `Number::as_i64` or
/// `Number::as_u64` gives it, and its text is that of `Display`; a list holds its items in order.
#[verifier::external_body]
pub(crate) fn apart<'a>(v: &'a serde_json::Value) -> (r: Piece<'a>)
    ensures
        r.shows(json_of(*v)),
{
    match v {
        serde_json::Value::Null => Piece::Null,
        serde_json::Value::Bool(b) => Piece::Flag(*b),
        serde_json::Value::Number(n) => Piece::Number {
            whole: n.as_i64().map(i128::from).or(n.as_u64().map(i128::from)),
            text: n.to_string(),
        },
        serde_json::Value::String(s) => Piece::Text(s.as_str()),
        serde_json::Value::Array(items) => Piece::List(items),
        serde_json::Value::Object(_) => Piece::Object,
    }
}

/// `serde_json::Value::get` with a key: the value under the key of an object. What is no object
/// has none.
#[verifier::external_body]
pub(crate) fn member<'a>(v: &'a serde_json::Value, key: &str) -> (r: Option<&'a serde_json::Value>)
    ensures
        match (json_of(*v), r) {
            (JsonModel::Object(m), Some(x)) => m.dom().contains(key@) && json_of(*x) == m[key@],
            (JsonModel::Object(m), None) => !m.dom().contains(key@),
            (_, _) => r is None,
        },
{
    v.get(key)
}

/// The place of a field in a message.
pub enum SlotModel {
    Absent,
    /// The field stands there under both of its names.
    Twice,
    Given(JsonModel),
}

impl JsonModel {
    /// Whether the value can be a message of `n` fields: an object, or a list of at most that
    /// many values, which stand for the fields in their order.
    pub open spec fn fits(self, n: nat) -> bool {
        match self {
            JsonModel::Object(_) => true,
            JsonModel::List(s) => s.len() <= n,
            _ => false,
        }
    }

    /// The field of a message at a place, under either of two names.
    pub open spec fn field_or(self, i: nat, name: Seq<char>, other: Seq<char>) -> SlotModel {
        match self {
            JsonModel::Object(m) => if m.dom().contains(name) && m.dom().contains(other) {
                SlotModel::Twice
            } else if m.dom().contains(name) {
                SlotModel::Given(m[name])
            } else if m.dom().contains(other) {
                SlotModel::Given(m[other])
            } else {
                SlotModel::Absent
            },
            _ => self.item(i),
        }
    }

    /// The field of a message at a place, under a name.
    pub open spec fn field(self, i: nat, name: Seq<char>) -> SlotModel {
        match self {
            JsonModel::Object(m) => if m.dom().contains(name) {
                SlotModel::Given(m[name])
            } else {
                SlotModel::Absent
            },
            _ => self.item(i),
        }
    }

    /// The value at a place of a list.
    pub open spec fn item(self, i: nat) -> SlotModel {
        match self {
            JsonModel::List(s) => if i < s.len() {
                SlotModel::Given(s[i as int])
            } else {
                SlotModel::Absent
            },
            _ => SlotModel::Absent,
        }
    }

    /// The text that the value is.
    pub open spec fn as_text(self) -> Option<Seq<char>> {
        match self {
            JsonModel::Text(s) => Some(s),
            _ => None,
        }
    }

    /// The pair of texts that the value is.
    pub open spec fn as_pair(self) -> Option<(Seq<char>, Seq<char>)> {
        match self {
            JsonModel::List(s) => if s.len() == 2 && s[0] is Text && s[1] is Text {
                Some((s[0]->Text_0, s[1]->Text_0))
            } else {
                None
            },
            _ => None,
        }
    }

    /// A message without the shell that a combined stream puts round it.
    pub open spec fn unwrapped(self) -> JsonModel {
        match self {
            JsonModel::Object(m) => if m.dom().contains("data"@) {
                m["data"@]
            } else {
                self
            },
            _ => self,
        }
    }
}

/// The texts that some values are; `None` where one is none.
pub open spec fn texts_of(s: Seq<JsonModel>) -> Option<Seq<Seq<char>>>
    decreases s.len(),
{
    if s.len() == 0 {
        Some(Seq::empty())
    } else {
        match (texts_of(s.drop_last()), s.last().as_text()) {
            (Some(before), Some(t)) => Some(before.push(t)),
            _ => None,
        }
    }
}

/// The pairs of texts that some values are; `None` where one is none.
pub open spec fn pairs_of(s: Seq<JsonModel>) -> Option<Seq<(Seq<char>, Seq<char>)>>
    decreases s.len(),
{
    if s.len() == 0 {
        Some(Seq::empty())
    } else {
        match (pairs_of(s.drop_last()), s.last().as_pair()) {
            (Some(before), Some(p)) => Some(before.push(p)),
            _ => None,
        }
    }
}

impl SlotModel {
    /// A text; one that may be missing is empty.
    pub open spec fn text(self, needed: bool) -> Option<Seq<char>> {
        match self {
            SlotModel::Absent => if needed {
                None
            } else {
                Some(Seq::empty())
            },
            SlotModel::Twice => None,
            SlotModel::Given(j) => j.as_text(),
        }
    }

    /// A text that may be missing or null.
    pub open spec fn maybe_text(self) -> Option<Option<Seq<char>>> {
        match self {
            SlotModel::Absent => Some(None),
            SlotModel::Twice => None,
            SlotModel::Given(JsonModel::Null) => Some(None),
            SlotModel::Given(j) => match j.as_text() {
                Some(s) => Some(Some(s)),
                None => None,
            },
        }
    }

    /// A whole number from `low` to `high`.
    pub open spec fn whole(self, low: int, high: int) -> Option<int> {
        match self {
            SlotModel::Given(JsonModel::Number { whole: Some(n), .. }) => if low <= n <= high {
                Some(n)
            } else {
                None
            },
            _ => None,
        }
    }

    /// An integer; one that may be missing is zero.
    pub open spec fn integer(self, needed: bool) -> Option<int> {
        match self {
            SlotModel::Absent => if needed {
                None
            } else {
                Some(0)
            },
            _ => self.whole(i64::MIN as int, i64::MAX as int),
        }
    }

    /// An integer that may be missing or null.
    pub open spec fn maybe_integer(self) -> Option<Option<int>> {
        match self {
            SlotModel::Absent => Some(None),
            SlotModel::Given(JsonModel::Null) => Some(None),
            _ => match self.whole(i64::MIN as int, i64::MAX as int) {
                Some(n) => Some(Some(n)),
                None => None,
            },
        }
    }

    /// A truth value.
    pub open spec fn flag(self) -> Option<bool> {
        match self {
            SlotModel::Given(JsonModel::Flag(b)) => Some(b),
            _ => None,
        }
    }

    /// A list; one that may be missing is empty.
    pub open spec fn list(self, needed: bool) -> Option<Seq<JsonModel>> {
        match self {
            SlotModel::Absent => if needed {
                None
            } else {
                Some(Seq::empty())
            },
            SlotModel::Given(JsonModel::List(s)) => Some(s),
            _ => None,
        }
    }
}

/// The place of a field in a message.
pub(crate) enum Slot<'a> {
    Absent,
    Twice,
    Given(&'a serde_json::Value),
}

impl<'a> Slot<'a> {
    pub(crate) open spec fn model(self) -> SlotModel {
        match self {
            Slot::Absent => SlotModel::Absent,
            Slot::Twice => SlotModel::Twice,
            Slot::Given(v) => SlotModel::Given(json_of(*v)),
        }
    }
}

/// Whether a value can be a message of `n` fields.
pub(crate) fn fits(v: &serde_json::Value, n: usize) -> (r: bool)
    ensures
        r == json_of(*v).fits(n as nat),
{
    match apart(v) {
        Piece::Object => true,
        Piece::List(items) => items.len() <= n,
        _ => false,
    }
}

/// The value at a place of a list.
pub(crate) fn item<'a>(v: &'a serde_json::Value, i: usize) -> (r: Slot<'a>)
    ensures
        r.model() == json_of(*v).item(i as nat),
{
    match apart(v) {
        Piece::List(items) => if i < items.len() {
            assert(jsons_of(items@)[i as int] == json_of(items@[i as int]));
            Slot::Given(&items[i])
        } else {
            Slot::Absent
        },
        _ => Slot::Absent,
    }
}

/// The field of a message at a place, under a name.
pub(crate) fn field<'a>(v: &'a serde_json::Value, i: usize, name: &str) -> (r: Slot<'a>)
    ensures
        r.model() == json_of(*v).field(i as nat, name@),
{
    match apart(v) {
        Piece::Object => match member(v, name) {
            Some(x) => Slot::Given(x),
            None => Slot::Absent,
        },
        _ => item(v, i),
    }
}

/// The field of a message at a place, under either of two names.
pub(crate) fn field_or<'a>(v: &'a serde_json::Value, i: usize, name: &str, other: &str) -> (r: Slot<
    'a,
>)
    ensures
        r.model() == json_of(*v).field_or(i as nat, name@, other@),
{
    match apart(v) {
        Piece::Object => match (member(v, name), member(v, other)) {
            (Some(_), Some(_)) => Slot::Twice,
            (Some(x), None) => Slot::Given(x),
            (None, Some(x)) => Slot::Given(x),
            (None, None) => Slot::Absent,
        },
        _ => item(v, i),
    }
}

/// The text that a value is.
pub(crate) fn take_text(v: &serde_json::Value) -> (r: Option<String>)
    ensures
        match r {
            Some(s) => json_of(*v).as_text() == Some(s@),
            None => json_of(*v).as_text() is None,
        },
{
    match apart(v) {
        Piece::Text(s) => Some(s.to_owned()),
        _ => None,
    }
}

impl<'a> Slot<'a> {
    pub(crate) fn text(self, needed: bool) -> (r: Option<String>)
        ensures
            match r {
                Some(s) => self.model().text(needed) == Some(s@),
                None => self.model().text(needed) is None,
            },
    {
        match self {
            Slot::Absent => if needed {
                None
            } else {
                let none = String::new();
                assert(none@ =~= Seq::<char>::empty());
                Some(none)
            },
            Slot::Twice => None,
            Slot::Given(v) => take_text(v),
        }
    }

    pub(crate) fn maybe_text(self) -> (r: Option<Option<String>>)
        ensures
            match r {
                Some(Some(s)) => self.model().maybe_text() == Some(Some(s@)),
                Some(None) => self.model().maybe_text() == Some(None::<Seq<char>>),
                None => self.model().maybe_text() is None,
            },
    {
        match self {
            Slot::Absent => Some(None),
            Slot::Twice => None,
            Slot::Given(v) => match apart(v) {
                Piece::Null => Some(None),
                Piece::Text(s) => Some(Some(s.to_owned())),
                _ => None,
            },
        }
    }

    pub(crate) fn natural(self) -> (r: Option<u64>)
        ensures
            match r {
                Some(n) => self.model().whole(0, u64::MAX as int) == Some(n as int),
                None => self.model().whole(0, u64::MAX as int) is None,
            },
    {
        match self {
            Slot::Given(v) => match apart(v) {
                Piece::Number { whole: Some(n), .. } => if 0 <= n && n <= u64::MAX as i128 {
                    Some(n as u64)
                } else {
                    None
                },
                _ => None,
            },
            _ => None,
        }
    }

    pub(crate) fn integer(self, needed: bool) -> (r: Option<i64>)
        ensures
            match r {
                Some(n) => self.model().integer(needed) == Some(n as int),
                None => self.model().integer(needed) is None,
            },
    {
        match self {
            Slot::Absent => if needed {
                None
            } else {
                Some(0)
            },
            Slot::Twice => None,
            Slot::Given(v) => match apart(v) {
                Piece::Number { whole: Some(n), .. } => if i64::MIN as i128 <= n && n
                    <= i64::MAX as i128 {
                    Some(n as i64)
                } else {
                    None
                },
                _ => None,
            },
        }
    }

    pub(crate) fn maybe_integer(self) -> (r: Option<Option<i64>>)
        ensures
            match r {
                Some(Some(n)) => self.model().maybe_integer() == Some(Some(n as int)),
                Some(None) => self.model().maybe_integer() == Some(None::<int>),
                None => self.model().maybe_integer() is None,
            },
    {
        match self {
            Slot::Absent => Some(None),
            Slot::Twice => None,
            Slot::Given(v) => match apart(v) {
                Piece::Null => Some(None),
                _ => match self.integer(true) {
                    Some(n) => Some(Some(n)),
                    None => None,
                },
            },
        }
    }

    pub(crate) fn flag(self) -> (r: Option<bool>)
        ensures
            r == self.model().flag(),
    {
        match self {
            Slot::Given(v) => match apart(v) {
                Piece::Flag(b) => Some(b),
                _ => None,
            },
            _ => None,
        }
    }

    pub(crate) fn texts(self, needed: bool) -> (r: Option<Vec<String>>)
        ensures
            match (r, self.model().list(needed)) {
                (Some(v), Some(s)) => texts_of(s) == Some(v@.map_values(|t: String| t@)),
                (None, Some(s)) => texts_of(s) is None,
                (_, None) => r is None,
            },
    {
        let items = match self {
            Slot::Absent => {
                let none: Vec<String> = Vec::new();
                assert(none@.map_values(|t: String| t@) =~= Seq::<Seq<char>>::empty());
                return if needed {
                    None
                } else {
                    Some(none)
                };
            },
            Slot::Twice => return None,
            Slot::Given(v) => match apart(v) {
                Piece::List(items) => items,
                _ => return None,
            },
        };
        let ghost s = jsons_of(items@);
        let mut out: Vec<String> = Vec::new();
        assert(out@.map_values(|t: String| t@) =~= Seq::<Seq<char>>::empty());
        for i in 0..items.len()
            invariant
                s == jsons_of(items@),
                self.model().list(needed) == Some(s),
                texts_of(s.take(i as int)) == Some(out@.map_values(|t: String| t@)),
        {
            let ghost before = out@;
            assert(s.take(i + 1).drop_last() =~= s.take(i as int));
            assert(s.take(i + 1).last() == json_of(items@[i as int]));
            match take_text(&items[i]) {
                Some(t) => {
                    out.push(t);
                    assert(out@.map_values(|t: String| t@) =~= before.map_values(
                        |t: String| t@,
                    ).push(t@));
                },
                None => {
                    proof {
                        lemma_texts_fail(s, (i + 1) as nat);
                    }
                    return None;
                },
            }
        }
        assert(s.take(s.len() as int) =~= s);
        Some(out)
    }

    pub(crate) fn pairs(self) -> (r: Option<Vec<(String, String)>>)
        ensures
            match (r, self.model().list(true)) {
                (Some(v), Some(s)) => pairs_of(s) == Some(pair_texts(v@)),
                (None, Some(s)) => pairs_of(s) is None,
                (_, None) => r is None,
            },
    {
        let items = match self {
            Slot::Given(v) => match apart(v) {
                Piece::List(items) => items,
                _ => return None,
            },
            _ => return None,
        };
        let ghost s = jsons_of(items@);
        let mut out: Vec<(String, String)> = Vec::new();
        assert(pair_texts(out@) =~= Seq::<(Seq<char>, Seq<char>)>::empty());
        for i in 0..items.len()
            invariant
                s == jsons_of(items@),
                self.model().list(true) == Some(s),
                pairs_of(s.take(i as int)) == Some(pair_texts(out@)),
        {
            let ghost before = out@;
            assert(s.take(i + 1).drop_last() =~= s.take(i as int));
            assert(s.take(i + 1).last() == json_of(items@[i as int]));
            match take_pair(&items[i]) {
                Some((a, b)) => {
                    out.push((a, b));
                    assert(pair_texts(out@) =~= pair_texts(before).push((a@, b@)));
                },
                None => {
                    proof {
                        lemma_pairs_fail(s, (i + 1) as nat);
                    }
                    return None;
                },
            }
        }
        assert(s.take(s.len() as int) =~= s);
        Some(out)
    }
}

/// Pairs of texts by their characters.
pub open spec fn pair_texts(s: Seq<(String, String)>) -> Seq<(Seq<char>, Seq<char>)> {
    s.map_values(|p: (String, String)| (p.0@, p.1@))
}

proof fn lemma_texts_fail(s: Seq<JsonModel>, n: nat)
    requires
        n <= s.len(),
        texts_of(s.take(n as int)) is None,
    ensures
        texts_of(s) is None,
    decreases s.len() - n,
{
    if n < s.len() {
        assert(s.take((n + 1) as int).drop_last() =~= s.take(n as int));
        lemma_texts_fail(s, n + 1);
    } else {
        assert(s.take(n as int) =~= s);
    }
}

proof fn lemma_pairs_fail(s: Seq<JsonModel>, n: nat)
    requires
        n <= s.len(),
        pairs_of(s.take(n as int)) is None,
    ensures
        pairs_of(s) is None,
    decreases s.len() - n,
{
    if n < s.len() {
        assert(s.take((n + 1) as int).drop_last() =~= s.take(n as int));
        lemma_pairs_fail(s, n + 1);
    } else {
        assert(s.take(n as int) =~= s);
    }
}

/// The pair of texts that a value is.
pub(crate) fn take_pair(v: &serde_json::Value) -> (r: Option<(String, String)>)
    ensures
        match r {
            Some((a, b)) => json_of(*v).as_pair() == Some((a@, b@)),
            None => json_of(*v).as_pair() is None,
        },
{
    match apart(v) {
        Piece::List(items) => {
            if items.len() != 2 {
                return None;
            }
            assert(jsons_of(items@)[0] == json_of(items@[0]));
            assert(jsons_of(items@)[1] == json_of(items@[1]));
            match (take_text(&items[0]), take_text(&items[1])) {
                (Some(a), Some(b)) => Some((a, b)),
                _ => None,
            }
        },
        _ => None,
    }
}

/// The items of a list; `None` where the value is no list.
pub(crate) fn list_of<'a>(v: &'a serde_json::Value) -> (r: Option<&'a Vec<serde_json::Value>>)
    ensures
        match r {
            Some(items) => json_of(*v) == JsonModel::List(jsons_of(items@)),
            None => !(json_of(*v) is List),
        },
{
    match apart(v) {
        Piece::List(items) => Some(items),
        _ => None,
    }
}

/// A message without the shell that a combined stream puts round it.
pub(crate) fn unwrapped<'a>(v: &'a serde_json::Value) -> (r: &'a serde_json::Value)
    ensures
        json_of(*r) == json_of(*v).unwrapped(),
{
    match member(v, "data") {
        Some(x) => x,
        None => v,
    }
}

/// What is said of a text that is not JSON.
pub open spec fn not_json(e: Seq<char>) -> Seq<char> {
    "不是合法 JSON："@ + e
}

/// Reads a text, or says that it is not JSON.
pub(crate) fn open_message(text: &str) -> (r: Result<serde_json::Value, String>)
    ensures
        match r {
            Ok(v) => json_text(text@) == Ok::<JsonModel, Seq<char>>(json_of(v)),
            Err(e) => json_text(text@) matches Err(why) && e@ == not_json(why),
        },
{
    match read_json(text) {
        Ok(v) => Ok(v),
        Err(e) => Err(joined("不是合法 JSON：", e.as_str())),
    }
}

/// Whether an object has a text under a name.
pub open spec fn has_text(m: Map<Seq<char>, JsonModel>, name: Seq<char>, text: Seq<char>) -> bool {
    m.dom().contains(name) && m[name] == JsonModel::Text(text)
}

/// Whether an object has an integer under a name.
pub open spec fn has_integer(m: Map<Seq<char>, JsonModel>, name: Seq<char>, n: int) -> bool {
    m.dom().contains(name) && (m[name] matches JsonModel::Number { whole: Some(w), .. } && w == n)
        && i64::MIN <= n <= i64::MAX
}

/// Whether an object has a truth value under a name.
pub open spec fn has_flag(m: Map<Seq<char>, JsonModel>, name: Seq<char>, b: bool) -> bool {
    m.dom().contains(name) && m[name] == JsonModel::Flag(b)
}

/// A field of an object is what stands under its name, wherever; one of a list is what stands at its place,
/// whatever its name; anything else has no fields.
pub proof fn law_fields_are_found(
    m: Map<Seq<char>, JsonModel>,
    s: Seq<JsonModel>,
    i: nat,
    name: Seq<char>,
)
    ensures
        m.dom().contains(name) ==> JsonModel::Object(m).field(i, name) == SlotModel::Given(m[name]),
        !m.dom().contains(name) ==> JsonModel::Object(m).field(i, name) is Absent,
        i < s.len() ==> JsonModel::List(s).field(i, name) == SlotModel::Given(s[i as int]),
        i >= s.len() ==> JsonModel::List(s).field(i, name) is Absent,
        JsonModel::Object(m).fits(i),
        JsonModel::List(s).fits(i) <==> s.len() <= i,
{
}

/// A message in a shell is what the shell carries as its data; one without a shell is itself.
pub proof fn law_shells_are_taken_off(m: Map<Seq<char>, JsonModel>, j: JsonModel)
    ensures
        m.dom().contains("data"@) ==> JsonModel::Object(m).unwrapped() == m["data"@],
        !m.dom().contains("data"@) ==> JsonModel::Object(m).unwrapped() == JsonModel::Object(m),
        !(j is Object) ==> j.unwrapped() == j,
{
}

/// A field that has to be there is nothing where it is missing; one that may be missing is empty, zero or
/// none. What is there has to be of its kind.
pub proof fn law_missing_fields(j: JsonModel, low: int, high: int)
    ensures
        SlotModel::Absent.text(true) is None,
        SlotModel::Absent.text(false) == Some(Seq::<char>::empty()),
        SlotModel::Absent.integer(true) is None,
        SlotModel::Absent.integer(false) == Some(0int),
        SlotModel::Absent.list(true) is None,
        SlotModel::Absent.list(false) == Some(Seq::<JsonModel>::empty()),
        SlotModel::Absent.maybe_text() == Some(None::<Seq<char>>),
        SlotModel::Absent.maybe_integer() == Some(None::<int>),
        SlotModel::Absent.flag() is None,
        j matches JsonModel::Text(t) ==> SlotModel::Given(j).text(true) == Some(t),
        !(j is Text) ==> SlotModel::Given(j).text(true) is None && SlotModel::Given(j).text(
            false,
        ) is None,
        j matches JsonModel::List(s) ==> SlotModel::Given(j).list(true) == Some(s),
        !(j is List) ==> SlotModel::Given(j).list(false) is None,
        j matches JsonModel::Flag(b) ==> SlotModel::Given(j).flag() == Some(b),
        j matches JsonModel::Number { whole: Some(n), .. } ==> (SlotModel::Given(j).whole(low, high)
            is Some <==> low <= n <= high) && (SlotModel::Given(j).whole(low, high) is Some
            ==> SlotModel::Given(j).whole(low, high) == Some(n)),
{
}

} // verus!
