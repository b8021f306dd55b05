//! JSON text as far as control messages read it.
//!
//! Parsing and quoting are `serde_json`'s. A value is read one level deep; what
//! stands below is kept as compact JSON text, to be read in its turn or to be
//! echoed as it is.

use vstd::prelude::*;
use vstd::string::*;

use serde_json::Value;

verus! {

/// An array element or an object member's value.
#[derive(Debug)]
pub struct JsonItem {
    /// The value as compact JSON text.
    pub text: String,
    /// The value, where it is an integer within the range of `u64`.
    pub number: Option<u64>,
    /// The value, where it is a string, or what says that it is none.
    pub string: Result<String, String>,
}

/// A JSON value, one level deep.
#[derive(Debug)]
pub enum JsonNode {
    /// `null`.
    Null,
    /// `true` or `false`.
    Bool(bool),
    /// A number, with its value where it is an integer within the range of `u64`.
    Number(Option<u64>),
    /// A string.
    Text(String),
    /// An array.
    Array(Vec<JsonItem>),
    /// An object. No key occurs twice.
    Object(Vec<(String, JsonItem)>),
}

/// An array element or an object member's value, as plain values.
pub struct ItemForm {
    /// The value as compact JSON text.
    pub text: Seq<char>,
    /// The value, where it is an integer within the range of `u64`.
    pub number: Option<u64>,
    /// The value, where it is a string, or what says that it is none.
    pub string: Result<Seq<char>, Seq<char>>,
}

/// A JSON value, one level deep, as plain values.
pub enum JsonForm {
    /// `null`.
    Null,
    /// `true` or `false`.
    Bool(bool),
    /// A number, with its value where it is an integer within the range of `u64`.
    Number(Option<u64>),
    /// A string.
    Text(Seq<char>),
    /// An array.
    Array(Seq<ItemForm>),
    /// An object.
    Object(Seq<(Seq<char>, ItemForm)>),
}

/// A text, or what is wrong with it, as plain values.
pub open spec fn string_form(string: Result<String, String>) -> Result<Seq<char>, Seq<char>> {
    match string {
        Ok(value) => Ok(value@),
        Err(error) => Err(error@),
    }
}

impl View for JsonItem {
    type V = ItemForm;

    open spec fn view(&self) -> ItemForm {
        ItemForm {
            text: self.text@,
            number: self.number,
            string: string_form(self.string),
        }
    }
}

impl View for JsonNode {
    type V = JsonForm;

    open spec fn view(&self) -> JsonForm {
        match self {
            JsonNode::Null => JsonForm::Null,
            JsonNode::Bool(value) => JsonForm::Bool(*value),
            JsonNode::Number(value) => JsonForm::Number(*value),
            JsonNode::Text(value) => JsonForm::Text(value@),
            JsonNode::Array(items) => JsonForm::Array(items@.map_values(|item: JsonItem| item@)),
            JsonNode::Object(members) => JsonForm::Object(
                members@.map_values(|m: (String, JsonItem)| (m.0@, m.1@)),
            ),
        }
    }
}

/// What `serde_json` reads from a text, one level deep: `None` where the text is no
/// JSON.
pub uninterp spec fn json_form(text: Seq<char>) -> Option<JsonForm>;

/// What `serde_json` reads from a text where a string is wanted: the string, or the
/// text of its error.
pub uninterp spec fn json_string(text: Seq<char>) -> Result<Seq<char>, Seq<char>>;

/// A digit in base sixteen, below ten as a decimal digit and then as a small letter.
pub open spec fn hex_digit(n: nat) -> char {
    if n < 10 {
        ('0' as u32 + n) as char
    } else {
        ('a' as u32 + n - 10) as char
    }
}

/// A character as it stands in a JSON string: quotes, backslashes and control
/// characters are escaped, by a letter of their own where they have one.
pub open spec fn escaped(c: char) -> Seq<char> {
    if c == '"' {
        seq!['\\', '"']
    } else if c == '\\' {
        seq!['\\', '\\']
    } else if c == '\u{8}' {
        seq!['\\', 'b']
    } else if c == '\t' {
        seq!['\\', 't']
    } else if c == '\n' {
        seq!['\\', 'n']
    } else if c == '\u{c}' {
        seq!['\\', 'f']
    } else if c == '\r' {
        seq!['\\', 'r']
    } else if ' ' > c {
        seq!['\\', 'u', '0', '0', hex_digit(c as nat / 16), hex_digit(c as nat % 16)]
    } else {
        seq![c]
    }
}

/// The characters of a text as they stand in a JSON string.
pub open spec fn escaped_text(text: Seq<char>) -> Seq<char>
    decreases text.len(),
{
    if text.len() == 0 {
        Seq::empty()
    } else {
        escaped_text(text.drop_last()) + escaped(text.last())
    }
}

/// A text as a JSON string.
pub open spec fn json_quoted(text: Seq<char>) -> Seq<char> {
    seq!['"'] + escaped_text(text) + seq!['"']
}

/// A JSON string stands on one line, whatever its text.
pub proof fn quoted_on_one_line(text: Seq<char>)
    ensures
        one_line(json_quoted(text)),
{
    lemma_escaped_on_one_line(text);
    one_line_together(seq!['"'], escaped_text(text));
    one_line_together(seq!['"'] + escaped_text(text), seq!['"']);
}

/// A text without quotes, backslashes and control characters is quoted as it is.
pub proof fn plain_text_is_quoted_as_it_is(text: Seq<char>)
    requires
        forall|i: int|
            0 <= i < text.len() ==> #[trigger] text[i] >= ' ' && text[i] != '"' && text[i] != '\\',
    ensures
        json_quoted(text) == seq!['"'] + text + seq!['"'],
{
    lemma_plain_text_is_not_escaped(text);
}

proof fn lemma_plain_text_is_not_escaped(text: Seq<char>)
    requires
        forall|i: int|
            0 <= i < text.len() ==> #[trigger] text[i] >= ' ' && text[i] != '"' && text[i] != '\\',
    ensures
        escaped_text(text) == text,
    decreases text.len(),
{
    if text.len() > 0 {
        let shorter = text.drop_last();
        assert forall|i: int| 0 <= i < shorter.len() implies #[trigger] shorter[i] >= ' '
            && shorter[i] != '"' && shorter[i] != '\\' by {
            assert(shorter[i] == text[i]);
        }
        lemma_plain_text_is_not_escaped(shorter);
        assert(text.last() == text[text.len() - 1]);
        assert(text =~= shorter + seq![text.last()]);
    }
}

proof fn lemma_escape_on_one_line(c: char)
    ensures
        one_line(escaped(c)),
{
    if ' ' > c {
        assert(c as nat / 16 < 2 && c as nat % 16 < 16);
        assert(hex_digit(c as nat / 16) >= '0' && hex_digit(c as nat % 16) >= '0');
    }
}

proof fn lemma_escaped_on_one_line(text: Seq<char>)
    ensures
        one_line(escaped_text(text)),
    decreases text.len(),
{
    if text.len() > 0 {
        lemma_escaped_on_one_line(text.drop_last());
        lemma_escape_on_one_line(text.last());
        one_line_together(escaped_text(text.drop_last()), escaped(text.last()));
    }
}

/// Whether a text stands on one line.
pub open spec fn one_line(text: Seq<char>) -> bool {
    !text.contains('\n')
}

/// Texts that stand on one line stand on one line together.
pub proof fn one_line_together(a: Seq<char>, b: Seq<char>)
    requires
        one_line(a),
        one_line(b),
    ensures
        one_line(a + b),
{
    if (a + b).contains('\n') {
        let i = choose|i: int| 0 <= i < (a + b).len() && (a + b)[i] == '\n';
        if i < a.len() {
            assert(a[i] == '\n');
        } else {
            assert(b[i - a.len()] == '\n');
        }
    }
}

/// Whether every text that is kept below a value stands on one line.
pub open spec fn one_line_below(form: JsonForm) -> bool {
    match form {
        JsonForm::Array(items) => forall|i: int|
            0 <= i < items.len() ==> one_line(#[trigger] items[i].text),
        JsonForm::Object(members) => forall|i: int|
            0 <= i < members.len() ==> one_line((#[trigger] members[i]).1.text),
        _ => true,
    }
}

/// Whether a value has other values below it.
pub open spec fn is_structure(form: JsonForm) -> bool {
    form is Array || form is Object
}

/// Whether a text may be the text of an array or an object, by its first character:
/// an opening bracket, or whitespace in front of one.
pub open spec fn may_open_structure(text: Seq<char>) -> bool {
    text.len() > 0 && (text[0] == '{' || text[0] == '[' || text[0] == ' ' || text[0] == '\t'
        || text[0] == '\n' || text[0] == '\r')
}

/// `serde_json::from_str` into a `Value`: the value that a JSON text denotes, or
/// nothing where it is no JSON. What it reads is named [`json_form`]. An array or an
/// object begins with its bracket or with whitespace. Below the first level values
/// are kept as `Value` prints them, in compact form and so on one line, together
/// with what `Value::as_u64` and `serde_json::from_value` into a `String` say of them.
#[verifier::external_body]
pub(crate) fn read_json(text: &str) -> (out: Option<JsonNode>)
    ensures
        match out {
            Some(node) => json_form(text@) == Some(node@),
            None => json_form(text@) is None,
        },
        out matches Some(node) ==> (is_structure(node@) ==> may_open_structure(text@)),
        out matches Some(node) ==> one_line_below(node@),
{
    let item = |v: &Value| JsonItem {
        text: v.to_string(),
        number: v.as_u64(),
        string: serde_json::from_value(v.clone()).map_err(|error| error.to_string()),
    };
    Some(match serde_json::from_str(text).ok()? {
        Value::Null => JsonNode::Null,
        Value::Bool(value) => JsonNode::Bool(value),
        Value::Number(value) => JsonNode::Number(value.as_u64()),
        Value::String(value) => JsonNode::Text(value),
        Value::Array(items) => JsonNode::Array(items.iter().map(item).collect()),
        Value::Object(m) => JsonNode::Object(m.iter().map(|(k, v)| (k.clone(), item(v))).collect()),
    })
}

/// `serde_json::from_value` into a `String`, of the value that a JSON text denotes:
/// the string, or the text of the error. What it gives is named [`json_string`].
#[verifier::external_body]
pub(crate) fn read_json_string(text: &str) -> (out: Result<String, String>)
    ensures
        match out {
            Ok(value) => json_string(text@) == Ok::<Seq<char>, Seq<char>>(value@),
            Err(error) => json_string(text@) == Err::<Seq<char>, Seq<char>>(error@),
        },
{
    serde_json::from_str::<Value>(text)
        .and_then(serde_json::from_value::<String>)
        .map_err(|error| error.to_string())
}

/// `Value`'s printing of a string: between quotes, with quotes, backslashes and the
/// control characters below the space escaped and every other character as it is.
#[verifier::external_body]
pub(crate) fn quote_json(text: &str) -> (out: String)
    ensures
        out@ == json_quoted(text@),
{
    Value::String(text.to_owned()).to_string()
}

/// The value of the first member with a key, if there is one.
pub open spec fn member(members: Seq<(Seq<char>, ItemForm)>, key: Seq<char>) -> Option<ItemForm>
    decreases members.len(),
{
    if members.len() == 0 {
        None
    } else if members.first().0 == key {
        Some(members.first().1)
    } else {
        member(members.drop_first(), key)
    }
}

/// A member that is found is one of the members.
pub proof fn member_stands_below(members: Seq<(Seq<char>, ItemForm)>, key: Seq<char>)
    ensures
        member(members, key) matches Some(item) ==> exists|i: int|
            0 <= i < members.len() && (#[trigger] members[i]).1 == item && members[i].0 == key,
    decreases members.len(),
{
    if members.len() > 0 {
        if members.first().0 == key {
            assert(members[0].1 == members.first().1);
        } else {
            let rest = members.drop_first();
            member_stands_below(rest, key);
            if let Some(item) = member(rest, key) {
                let i = choose|i: int|
                    0 <= i < rest.len() && (#[trigger] rest[i]).1 == item && rest[i].0 == key;
                assert(members[i + 1] == rest[i]);
            }
        }
    }
}

/// The members of an object as plain values.
pub open spec fn member_forms(members: Seq<(String, JsonItem)>) -> Seq<(Seq<char>, ItemForm)> {
    members.map_values(|m: (String, JsonItem)| (m.0@, m.1@))
}

/// Looks up the value of a member by its key.
pub fn find_member<'a>(members: &'a Vec<(String, JsonItem)>, key: &str) -> (out: Option<&'a JsonItem>)
    ensures
        match out {
            Some(item) => member(member_forms(members@), key@) == Some(item@),
            None => member(member_forms(members@), key@) is None,
        },
{
    let ghost forms = member_forms(members@);
    let mut at: usize = 0;
    assert(forms.skip(0) == forms);
    while at < members.len()
        invariant
            at <= members.len(),
            forms == member_forms(members@),
            member(forms, key@) == member(forms.skip(at as int), key@),
        decreases members.len() - at,
    {
        let ghost rest = forms.skip(at as int);
        assert(rest.first() == (members@[at as int].0@, members@[at as int].1@));
        assert(rest.drop_first() == forms.skip(at + 1));
        if crate::text::same_text(members[at].0.as_str(), key) {
            return Some(&members[at].1);
        }
        at = at + 1;
    }
    None
}

// ---------------------------------------------------------------------------
// Keys that occur twice
// ---------------------------------------------------------------------------

/// How far a walk through the text of an object has come.
pub enum Walk {
    /// Between strings, below a number of open brackets, and whether a string that
    /// comes next is a key of the object.
    Between {
        /// How many brackets are open.
        depth: nat,
        /// Whether a key comes next.
        key: bool,
    },
    /// Within a string.
    Within {
        /// How many brackets are open.
        depth: nat,
        /// Whether the string is a key of the object.
        key: bool,
        /// The string so far, with its opening quote.
        text: Seq<char>,
        /// Whether a backslash came last that is not escaped itself.
        escaped: bool,
    },
}

/// A walk that goes on over one character.
pub open spec fn walked(walk: Walk, c: char) -> Walk {
    match walk {
        Walk::Between { depth, key } => if c == '"' {
            Walk::Within { depth, key: key && depth == 1, text: seq![c], escaped: false }
        } else if c == '{' || c == '[' {
            Walk::Between { depth: depth + 1, key: depth == 0 }
        } else if c == '}' || c == ']' {
            Walk::Between {
                depth: if depth > 0 {
                    (depth - 1) as nat
                } else {
                    0
                },
                key: false,
            }
        } else if c == ',' {
            Walk::Between { depth, key: true }
        } else {
            walk
        },
        Walk::Within { depth, key, text, escaped } => if c == '"' && !escaped {
            Walk::Between { depth, key: false }
        } else {
            Walk::Within { depth, key, text: text.push(c), escaped: c == '\\' && !escaped }
        },
    }
}

/// The key that a character completes, if it completes one.
pub open spec fn completed_key(walk: Walk, c: char) -> Option<Seq<char>> {
    match walk {
        Walk::Within { key: true, text, escaped: false, .. } if c == '"' => Some(text.push(c)),
        _ => None,
    }
}

/// The keys of the object whose text goes on with `rest`, each as it stands there
/// between its quotes.
pub open spec fn keys_ahead(walk: Walk, rest: Seq<char>) -> Seq<Seq<char>>
    decreases rest.len(),
{
    if rest.len() == 0 {
        Seq::empty()
    } else {
        let later = keys_ahead(walked(walk, rest.first()), rest.drop_first());
        match completed_key(walk, rest.first()) {
            Some(key) => seq![key] + later,
            None => later,
        }
    }
}

/// The keys in the text of an object, in order, each as it stands there between its
/// quotes.
pub open spec fn key_texts(text: Seq<char>) -> Seq<Seq<char>> {
    keys_ahead(Walk::Between { depth: 0, key: false }, text)
}

/// Whether a key, as it stands between its quotes, spells `key`. Without a backslash it
/// spells itself.
pub open spec fn spells(literal: Seq<char>, key: Seq<char>) -> bool {
    if literal.contains('\\') {
        json_string(literal) == Ok::<Seq<char>, Seq<char>>(key)
    } else {
        literal == seq!['"'] + key + seq!['"']
    }
}

/// How many of some keys spell `key`.
pub open spec fn times_spelled(keys: Seq<Seq<char>>, key: Seq<char>) -> nat
    decreases keys.len(),
{
    if keys.len() == 0 {
        0
    } else {
        let more: nat = if spells(keys.last(), key) {
            1
        } else {
            0
        };
        times_spelled(keys.drop_last(), key) + more
    }
}

/// Whether a key occurs more than once in the text of an object.
pub open spec fn keyed_twice(text: Seq<char>, key: Seq<char>) -> bool {
    times_spelled(key_texts(text), key) > 1
}

/// Some texts as plain values.
pub open spec fn texts(list: Seq<String>) -> Seq<Seq<char>> {
    list.map_values(|text: String| text@)
}

/// The keys in the text of an object, in order, each as it stands there between its
/// quotes.
pub fn read_key_texts(text: &str) -> (keys: Vec<String>)
    ensures
        texts(keys@) == key_texts(text@),
{
    let chars = crate::text::characters(text);
    let mut keys: Vec<String> = Vec::new();
    let mut depth: usize = 0;
    let mut key = false;
    let mut inside = false;
    let mut escaped = false;
    let mut current = String::new();
    let mut at: usize = 0;
    let ghost mut walk = Walk::Between { depth: 0, key: false };
    assert(text@.skip(0) == text@);
    assert(texts(keys@) + key_texts(text@) == key_texts(text@));
    while at < chars.len()
        invariant
            chars@ == text@,
            depth <= at <= chars.len(),
            walk == (if inside {
                Walk::Within { depth: depth as nat, key, text: current@, escaped }
            } else {
                Walk::Between { depth: depth as nat, key }
            }),
            texts(keys@) + keys_ahead(walk, text@.skip(at as int)) == key_texts(text@),
        decreases chars.len() - at,
    {
        let c = chars[at];
        let ghost rest = text@.skip(at as int);
        let ghost before = walk;
        let ghost found = texts(keys@);
        assert(rest.first() == c);
        assert(rest.drop_first() == text@.skip(at + 1));
        if inside {
            if c == '"' && !escaped {
                if key {
                    current.push(c);
                    keys.push(current);
                    current = String::new();
                    assert(texts(keys@) =~= found.push(completed_key(before, c)->0));
                    assert(found + keys_ahead(before, rest) =~= texts(keys@) + keys_ahead(
                        walked(before, c),
                        rest.drop_first(),
                    ));
                }
                inside = false;
                key = false;
            } else {
                current.push(c);
                escaped = c == '\\' && !escaped;
            }
        } else if c == '"' {
            inside = true;
            key = key && depth == 1;
            escaped = false;
            current = String::new();
            current.push(c);
            assert(current@ =~= seq![c]);
        } else if c == '{' || c == '[' {
            key = depth == 0;
            depth = depth + 1;
        } else if c == '}' || c == ']' {
            if depth > 0 {
                depth = depth - 1;
            }
            key = false;
        } else if c == ',' {
            key = true;
        }
        proof {
            walk = walked(before, c);
        }
        at = at + 1;
    }
    assert(texts(keys@) + keys_ahead(walk, text@.skip(at as int)) =~= texts(keys@));
    keys
}

/// Whether a text holds a backslash.
fn has_backslash(text: &str) -> (out: bool)
    ensures
        out == text@.contains('\\'),
{
    let chars = crate::text::characters(text);
    let mut at: usize = 0;
    while at < chars.len()
        invariant
            chars@ == text@,
            at <= chars.len(),
            forall|i: int| 0 <= i < at ==> text@[i] != '\\',
        decreases chars.len() - at,
    {
        if chars[at] == '\\' {
            assert(text@[at as int] == '\\');
            return true;
        }
        at = at + 1;
    }
    false
}

/// Whether a key, as it stands between its quotes, spells `key`.
fn is_spelling(literal: &str, key: &str) -> (out: bool)
    ensures
        out == spells(literal@, key@),
{
    if has_backslash(literal) {
        match read_json_string(literal) {
            Ok(spelled) => crate::text::same_text(spelled.as_str(), key),
            Err(_) => false,
        }
    } else {
        let mut plain = String::new();
        plain.push('"');
        plain.append(key);
        plain.push('"');
        assert(plain@ =~= seq!['"'] + key@ + seq!['"']);
        crate::text::same_text(literal, plain.as_str())
    }
}

/// Whether a key occurs more than once in the text of an object.
pub fn is_keyed_twice(text: &str, key: &str) -> (out: bool)
    ensures
        out == keyed_twice(text@, key@),
{
    let keys = read_key_texts(text);
    let mut times: usize = 0;
    let mut at: usize = 0;
    while at < keys.len()
        invariant
            texts(keys@) == key_texts(text@),
            times <= at <= keys.len(),
            times == times_spelled(texts(keys@).take(at as int), key@),
        decreases keys.len() - at,
    {
        let ghost done = texts(keys@).take(at + 1);
        assert(done.drop_last() =~= texts(keys@).take(at as int));
        assert(done.last() == keys@[at as int]@);
        if is_spelling(keys[at].as_str(), key) {
            times = times + 1;
        }
        at = at + 1;
    }
    assert(texts(keys@).take(at as int) =~= texts(keys@));
    times > 1
}

// ---------------------------------------------------------------------------
// Laws
// ---------------------------------------------------------------------------

/// The member that is found is the first with its key, and none is found where there is
/// none.
pub proof fn the_first_member_is_found(
    front: Seq<(Seq<char>, ItemForm)>,
    key: Seq<char>,
    item: ItemForm,
    rest: Seq<(Seq<char>, ItemForm)>,
)
    requires
        forall|i: int| 0 <= i < front.len() ==> (#[trigger] front[i]).0 != key,
    ensures
        member(front + seq![(key, item)] + rest, key) == Some(item),
        member(front, key) is None,
    decreases front.len(),
{
    let all = front + seq![(key, item)] + rest;
    if front.len() == 0 {
        assert(all.first() == (key, item));
    } else {
        let shorter = front.drop_first();
        assert forall|i: int| 0 <= i < shorter.len() implies (#[trigger] shorter[i]).0 != key by {
            assert(shorter[i] == front[i + 1]);
        }
        assert(front[0].0 != key);
        assert(all.first() == front[0]);
        assert(all.drop_first() =~= shorter + seq![(key, item)] + rest);
        the_first_member_is_found(shorter, key, item, rest);
    }
}

/// Quotes, backslashes and the control characters with a letter of their own are escaped
/// by a backslash in front of themselves or of that letter.
pub proof fn letters_of_their_own()
    ensures
        escaped('"') == seq!['\\', '"'],
        escaped('\\') == seq!['\\', '\\'],
        escaped('\u{8}') == seq!['\\', 'b'],
        escaped('\u{9}') == seq!['\\', 't'],
        escaped('\u{a}') == seq!['\\', 'n'],
        escaped('\u{c}') == seq!['\\', 'f'],
        escaped('\u{d}') == seq!['\\', 'r'],
{
}

/// Any other control character is escaped by the four digits of its code point, and no
/// other character is escaped at all.
pub proof fn other_characters(c: char)
    requires
        c != '"' && c != '\\',
        c as u32 != 8 && c as u32 != 9 && c as u32 != 10 && c as u32 != 12 && c as u32 != 13,
    ensures
        c as u32 >= 32 ==> escaped(c) == seq![c],
        (c as u32) < 16 ==> escaped(c) == "\\u000"@ + seq!["0123456789abcdef"@[c as int]],
        16 <= c as u32 && (c as u32) < 32 ==> escaped(c) == "\\u001"@ + seq![
            "0123456789abcdef"@[c as int - 16],
        ],
{
    reveal_strlit("\\u000");
    reveal_strlit("\\u001");
    reveal_strlit("0123456789abcdef");
    if (c as u32) < 32 {
        let n = c as nat % 16;
        assert(c as nat / 16 == 0 || c as nat / 16 == 1);
        assert("0123456789abcdef"@[n as int] == hex_digit(n));
        if (c as u32) < 16 {
            assert(escaped(c) =~= "\\u000"@ + seq!["0123456789abcdef"@[c as int]]);
        } else {
            assert(escaped(c) =~= "\\u001"@ + seq!["0123456789abcdef"@[c as int - 16]]);
        }
    }
}

/// A text is quoted character by character, in order.
pub proof fn quoting_in_parts(a: Seq<char>, c: char, b: Seq<char>)
    ensures
        json_quoted(a + seq![c] + b) == seq!['"'] + escaped_text(a) + escaped(c) + escaped_text(b)
            + seq!['"'],
        json_quoted(Seq::empty()) == seq!['"', '"'],
{
    lemma_escaped_together(a, seq![c]);
    lemma_escaped_together(a + seq![c], b);
    assert(seq![c].drop_last() =~= Seq::<char>::empty());
    assert(escaped_text(Seq::<char>::empty()) =~= Seq::empty());
    assert(escaped_text(seq![c]) =~= escaped(c));
    assert(json_quoted(a + seq![c] + b) =~= seq!['"'] + escaped_text(a) + escaped(c) + escaped_text(
        b,
    ) + seq!['"']);
    assert(json_quoted(Seq::empty()) =~= seq!['"', '"']);
}

proof fn lemma_escaped_together(a: Seq<char>, b: Seq<char>)
    ensures
        escaped_text(a + b) == escaped_text(a) + escaped_text(b),
    decreases b.len(),
{
    if b.len() == 0 {
        assert(a + b =~= a);
        assert(escaped_text(a) + escaped_text(b) =~= escaped_text(a));
    } else {
        assert((a + b).drop_last() =~= a + b.drop_last());
        assert((a + b).last() == b.last());
        lemma_escaped_together(a, b.drop_last());
        assert(escaped_text(a + b) =~= escaped_text(a) + escaped_text(b));
    }
}

/// A member in the text of an object: a key between quotes and a value, with what stands
/// before, between and after them.
pub struct MemberText {
    /// What stands before the key.
    pub before: Seq<char>,
    /// The key, without its quotes.
    pub key: Seq<char>,
    /// What stands between the key and the value: a colon, and whitespace around it.
    pub between: Seq<char>,
    /// The value.
    pub value: Seq<char>,
    /// What stands after the value.
    pub behind: Seq<char>,
}

/// Whether a text has neither quotes nor brackets nor commas.
pub open spec fn is_filling(text: Seq<char>) -> bool {
    forall|i: int|
        0 <= i < text.len() ==> #[trigger] text[i] != '"' && text[i] != ',' && text[i] != '{'
            && text[i] != '}' && text[i] != '[' && text[i] != ']'
}

/// Whether a text has neither quotes nor backslashes.
pub open spec fn is_unescaped(text: Seq<char>) -> bool {
    forall|i: int| 0 <= i < text.len() ==> #[trigger] text[i] != '"' && text[i] != '\\'
}

/// A text between quotes as it is.
pub open spec fn between_quotes(text: Seq<char>) -> Seq<char> {
    seq!['"'] + text + seq!['"']
}

/// The text of an array of strings or of an object, with two strings in it and what
/// follows each of them.
pub open spec fn two_strings(
    open: char,
    first: Seq<char>,
    behind_first: Seq<char>,
    second: Seq<char>,
    behind_second: Seq<char>,
    close: char,
) -> Seq<char> {
    seq![open] + between_quotes(first) + behind_first + seq![','] + between_quotes(second)
        + behind_second + seq![close]
}

/// Whether a text is a value of one of the common shapes: a number or a word, a string, an
/// array with one number or word or with two strings, or an object with one member or two.
pub open spec fn is_simple_value(value: Seq<char>) -> bool {
    ||| is_filling(value)
    ||| exists|text: Seq<char>| value == #[trigger] json_quoted(text)
    ||| exists|inner: Seq<char>|
        is_filling(inner) && value == #[trigger] (seq!['['] + inner + seq![']'])
    ||| exists|key: Seq<char>, inner: Seq<char>|
        is_unescaped(key) && is_filling(inner) && value == #[trigger] (seq!['{'] + between_quotes(
            key,
        ) + inner + seq!['}'])
    ||| exists|
        open: char,
        first: Seq<char>,
        behind_first: Seq<char>,
        second: Seq<char>,
        behind_second: Seq<char>,
        close: char,
    |
        has_two_strings(open, first, behind_first, second, behind_second, close) && value
            == #[trigger] two_strings(open, first, behind_first, second, behind_second, close)
}

/// Whether two strings without escapes stand between brackets with nothing else that would
/// mean anything.
pub open spec fn has_two_strings(
    open: char,
    first: Seq<char>,
    behind_first: Seq<char>,
    second: Seq<char>,
    behind_second: Seq<char>,
    close: char,
) -> bool {
    &&& open == '{' && close == '}' || open == '[' && close == ']'
    &&& is_unescaped(first) && is_unescaped(second)
    &&& is_filling(behind_first) && is_filling(behind_second)
}

/// Whether a member's key has no escapes, its value has a common shape, and nothing else
/// stands around them that would mean anything.
pub open spec fn is_simple_member(member: MemberText) -> bool {
    &&& is_filling(member.before)
    &&& is_unescaped(member.key)
    &&& is_filling(member.between)
    &&& is_simple_value(member.value)
    &&& is_filling(member.behind)
}

/// The text of a member.
pub open spec fn member_text(member: MemberText) -> Seq<char> {
    member.before + between_quotes(member.key) + member.between + member.value + member.behind
}

/// The text of some members, parted by commas.
pub open spec fn members_text(members: Seq<MemberText>) -> Seq<char>
    decreases members.len(),
{
    if members.len() == 0 {
        Seq::empty()
    } else if members.len() == 1 {
        member_text(members[0])
    } else {
        member_text(members[0]) + seq![','] + members_text(members.drop_first())
    }
}

/// The text of an object.
pub open spec fn object_text(members: Seq<MemberText>) -> Seq<char> {
    seq!['{'] + members_text(members) + seq!['}']
}

/// The keys of an object are those of its own members, in order. Strings that are values
/// and the keys of objects below it are none.
pub proof fn keys_are_those_of_the_members(members: Seq<MemberText>)
    requires
        members.len() > 0,
        forall|i: int| 0 <= i < members.len() ==> is_simple_member(#[trigger] members[i]),
    ensures
        key_texts(object_text(members)) == members.map_values(
            |member: MemberText| between_quotes(member.key),
        ),
{
    let text = object_text(members);
    let rest = members_text(members) + seq!['}'];
    assert(text.first() == '{');
    assert(text.drop_first() =~= rest);
    lemma_members(members);
}

/// A key is there twice exactly where two of the members have it.
pub proof fn twice_is_twice(members: Seq<MemberText>, key: Seq<char>)
    requires
        members.len() > 0,
        forall|i: int| 0 <= i < members.len() ==> is_simple_member(#[trigger] members[i]),
        !key.contains('\\'),
    ensures
        keyed_twice(object_text(members), key) <==> exists|i: int, j: int|
            0 <= i < j < members.len() && (#[trigger] members[i]).key == key && (
            #[trigger] members[j]).key == key,
{
    keys_are_those_of_the_members(members);
    lemma_times_spelled(members, key);
    if keyed_twice(object_text(members), key) {
        let j = lemma_spelled_somewhere(members, key);
        let i = lemma_spelled_somewhere(members.take(j), key);
        assert(members.take(j)[i] == members[i]);
        assert(members[i].key == key && members[j].key == key);
    }
    if exists|i: int, j: int|
        0 <= i < j < members.len() && (#[trigger] members[i]).key == key && (
        #[trigger] members[j]).key == key {
        let (i, j) = choose|i: int, j: int|
            0 <= i < j < members.len() && (#[trigger] members[i]).key == key && (
            #[trigger] members[j]).key == key;
        lemma_spelled_at(members, key, j);
        lemma_spelled_at(members.take(j), key, i);
    }
}

/// How many of some members have a key.
spec fn times_keyed(members: Seq<MemberText>, key: Seq<char>) -> nat
    decreases members.len(),
{
    if members.len() == 0 {
        0
    } else {
        times_keyed(members.drop_last(), key) + if members.last().key == key {
            1nat
        } else {
            0nat
        }
    }
}

proof fn lemma_times_spelled(members: Seq<MemberText>, key: Seq<char>)
    requires
        forall|i: int| 0 <= i < members.len() ==> is_simple_member(#[trigger] members[i]),
        !key.contains('\\'),
    ensures
        times_spelled(
            members.map_values(|member: MemberText| between_quotes(member.key)),
            key,
        ) == times_keyed(members, key),
    decreases members.len(),
{
    let keys = members.map_values(|member: MemberText| between_quotes(member.key));
    if members.len() > 0 {
        let shorter = members.drop_last();
        assert(keys.drop_last() =~= shorter.map_values(
            |member: MemberText| between_quotes(member.key),
        ));
        assert forall|i: int| 0 <= i < shorter.len() implies is_simple_member(
            #[trigger] shorter[i],
        ) by {
            assert(shorter[i] == members[i]);
        }
        lemma_times_spelled(shorter, key);
        let last = members.last();
        assert(is_simple_member(members[members.len() - 1]));
        let literal = between_quotes(last.key);
        assert(keys.last() == literal);
        assert(!literal.contains('\\')) by {
            if literal.contains('\\') {
                let i = choose|i: int| 0 <= i < literal.len() && literal[i] == '\\';
                assert(last.key[i - 1] == '\\');
            }
        }
        assert(literal.subrange(1, literal.len() - 1) =~= last.key);
        assert(between_quotes(key).subrange(1, between_quotes(key).len() - 1) =~= key);
        assert(spells(literal, key) <==> last.key == key);
    }
}

proof fn lemma_spelled_somewhere(members: Seq<MemberText>, key: Seq<char>) -> (at: int)
    requires
        times_keyed(members, key) > 0,
    ensures
        0 <= at < members.len(),
        members[at].key == key,
        times_keyed(members.take(at), key) == times_keyed(members, key) - 1,
    decreases members.len(),
{
    if members.last().key == key {
        assert(members.take(members.len() - 1) =~= members.drop_last());
        members.len() - 1
    } else {
        let at = lemma_spelled_somewhere(members.drop_last(), key);
        assert(members.drop_last().take(at) =~= members.take(at));
        at
    }
}

proof fn lemma_spelled_at(members: Seq<MemberText>, key: Seq<char>, at: int)
    requires
        0 <= at < members.len(),
        members[at].key == key,
    ensures
        times_keyed(members, key) >= times_keyed(members.take(at), key) + 1,
    decreases members.len(),
{
    if at == members.len() - 1 {
        assert(members.take(at) =~= members.drop_last());
    } else {
        lemma_spelled_at(members.drop_last(), key, at);
        assert(members.drop_last().take(at) =~= members.take(at));
    }
}

proof fn lemma_filling(depth: nat, key: bool, text: Seq<char>, rest: Seq<char>)
    requires
        is_filling(text),
    ensures
        keys_ahead(Walk::Between { depth, key }, text + rest) == keys_ahead(
            Walk::Between { depth, key },
            rest,
        ),
    decreases text.len(),
{
    if text.len() == 0 {
        assert(text + rest =~= rest);
    } else {
        let shorter = text.drop_first();
        assert forall|i: int| 0 <= i < shorter.len() implies #[trigger] shorter[i] != '"'
            && shorter[i] != ',' && shorter[i] != '{' && shorter[i] != '}' && shorter[i] != '['
            && shorter[i] != ']' by {
            assert(shorter[i] == text[i + 1]);
        }
        assert(text[0] != '"');
        assert((text + rest).first() == text[0]);
        assert((text + rest).drop_first() =~= shorter + rest);
        lemma_filling(depth, key, shorter, rest);
    }
}

proof fn lemma_string(depth: nat, key: bool, text: Seq<char>, rest: Seq<char>)
    requires
        is_unescaped(text),
    ensures
        keys_ahead(Walk::Between { depth, key }, between_quotes(text) + rest) == (if key && depth
            == 1 {
            seq![between_quotes(text)]
        } else {
            Seq::empty()
        }) + keys_ahead(Walk::Between { depth, key: false }, rest),
{
    let all = between_quotes(text) + rest;
    assert(all.first() == '"');
    assert(all.drop_first() =~= text + seq!['"'] + rest);
    lemma_within(depth, key && depth == 1, seq!['"'], text, rest);
    assert(seq!['"'] + text + seq!['"'] == between_quotes(text));
}

proof fn lemma_within(depth: nat, key: bool, so_far: Seq<char>, text: Seq<char>, rest: Seq<char>)
    requires
        is_unescaped(text),
    ensures
        keys_ahead(
            Walk::Within { depth, key, text: so_far, escaped: false },
            text + seq!['"'] + rest,
        ) == (if key {
            seq![so_far + text + seq!['"']]
        } else {
            Seq::empty()
        }) + keys_ahead(Walk::Between { depth, key: false }, rest),
    decreases text.len(),
{
    let all = text + seq!['"'] + rest;
    if text.len() == 0 {
        assert(all.first() == '"');
        assert(all.drop_first() =~= rest);
        assert(so_far + text + seq!['"'] =~= so_far.push('"'));
        let later = keys_ahead(Walk::Between { depth, key: false }, rest);
        assert(Seq::<Seq<char>>::empty() + later =~= later);
    } else {
        let shorter = text.drop_first();
        assert forall|i: int| 0 <= i < shorter.len() implies #[trigger] shorter[i] != '"'
            && shorter[i] != '\\' by {
            assert(shorter[i] == text[i + 1]);
        }
        assert(text[0] != '"');
        assert(all.first() == text[0]);
        assert(all.drop_first() =~= shorter + seq!['"'] + rest);
        lemma_within(depth, key, so_far.push(text[0]), shorter, rest);
        assert(so_far.push(text[0]) + shorter + seq!['"'] =~= so_far + text + seq!['"']);
    }
}

proof fn lemma_value(value: Seq<char>, rest: Seq<char>)
    requires
        is_simple_value(value),
    ensures
        keys_ahead(Walk::Between { depth: 1, key: false }, value + rest) == keys_ahead(
            Walk::Between { depth: 1, key: false },
            rest,
        ),
{
    let later = keys_ahead(Walk::Between { depth: 1, key: false }, rest);
    assert(Seq::<Seq<char>>::empty() + later =~= later);
    let all = value + rest;
    if is_filling(value) {
        lemma_filling(1, false, value, rest);
    } else if exists|text: Seq<char>| value == #[trigger] json_quoted(text) {
        let text = choose|text: Seq<char>| value == #[trigger] json_quoted(text);
        assert(all.first() == '"');
        assert(all.drop_first() =~= escaped_text(text) + (seq!['"'] + rest));
        lemma_escaped_within(1, seq!['"'], text, rest);
    } else if exists|inner: Seq<char>|
        is_filling(inner) && value == #[trigger] (seq!['['] + inner + seq![']']) {
        let inner = choose|inner: Seq<char>|
            is_filling(inner) && value == #[trigger] (seq!['['] + inner + seq![']']);
        let tail = seq![']'] + rest;
        assert(all.first() == '[');
        assert(all.drop_first() =~= inner + tail);
        lemma_filling(2, false, inner, tail);
        assert(tail.first() == ']');
        assert(tail.drop_first() =~= rest);
    } else if exists|key: Seq<char>, inner: Seq<char>|
        is_unescaped(key) && is_filling(inner) && value == #[trigger] (seq!['{'] + between_quotes(
            key,
        ) + inner + seq!['}']) {
        let (key, inner) = choose|key: Seq<char>, inner: Seq<char>|
            is_unescaped(key) && is_filling(inner) && value == #[trigger] (seq!['{']
                + between_quotes(key) + inner + seq!['}']);
        let tail = seq!['}'] + rest;
        assert(all.first() == '{');
        assert(all.drop_first() =~= between_quotes(key) + (inner + tail));
        lemma_string(2, false, key, inner + tail);
        lemma_filling(2, false, inner, tail);
        assert(tail.first() == '}');
        assert(tail.drop_first() =~= rest);
        let below = keys_ahead(Walk::Between { depth: 2, key: false }, inner + tail);
        assert(Seq::<Seq<char>>::empty() + below =~= below);
    } else {
        let (open, first, behind_first, second, behind_second, close) = choose|
            open: char,
            first: Seq<char>,
            behind_first: Seq<char>,
            second: Seq<char>,
            behind_second: Seq<char>,
            close: char,
        |
            has_two_strings(open, first, behind_first, second, behind_second, close) && value
                == #[trigger] two_strings(open, first, behind_first, second, behind_second, close);
        lemma_two_strings(open, first, behind_first, second, behind_second, close, rest);
    }
}

proof fn lemma_two_strings(
    open: char,
    first: Seq<char>,
    behind_first: Seq<char>,
    second: Seq<char>,
    behind_second: Seq<char>,
    close: char,
    rest: Seq<char>,
)
    requires
        has_two_strings(open, first, behind_first, second, behind_second, close),
    ensures
        keys_ahead(
            Walk::Between { depth: 1, key: false },
            two_strings(open, first, behind_first, second, behind_second, close) + rest,
        ) == keys_ahead(Walk::Between { depth: 1, key: false }, rest),
{
    let all = two_strings(open, first, behind_first, second, behind_second, close) + rest;
    let end = seq![close] + rest;
    let tail = behind_second + end;
    let later = between_quotes(second) + tail;
    let comma = seq![','] + later;
    let middle = behind_first + comma;
    assert(all.first() == open);
    assert(all.drop_first() =~= between_quotes(first) + middle);
    lemma_string(2, false, first, middle);
    lemma_filling(2, false, behind_first, comma);
    assert(comma.first() == ',');
    assert(comma.drop_first() =~= later);
    lemma_string(2, true, second, tail);
    lemma_filling(2, false, behind_second, end);
    assert(end.first() == close);
    assert(end.drop_first() =~= rest);
    let none = Seq::<Seq<char>>::empty();
    let one = keys_ahead(Walk::Between { depth: 2, key: false }, middle);
    let two = keys_ahead(Walk::Between { depth: 2, key: false }, tail);
    assert(none + one =~= one);
    assert(none + two =~= two);
}

proof fn lemma_member(member: MemberText, rest: Seq<char>)
    requires
        is_simple_member(member),
    ensures
        keys_ahead(Walk::Between { depth: 1, key: true }, member_text(member) + rest) == seq![
            between_quotes(member.key),
        ] + keys_ahead(Walk::Between { depth: 1, key: false }, rest),
{
    let behind = member.behind + rest;
    let value = member.value + behind;
    let between = member.between + value;
    let key = between_quotes(member.key) + between;
    assert(member_text(member) + rest =~= member.before + key);
    lemma_filling(1, true, member.before, key);
    lemma_string(1, true, member.key, between);
    lemma_filling(1, false, member.between, value);
    lemma_value(member.value, behind);
    lemma_filling(1, false, member.behind, rest);
}

proof fn lemma_members(members: Seq<MemberText>)
    requires
        members.len() > 0,
        forall|i: int| 0 <= i < members.len() ==> is_simple_member(#[trigger] members[i]),
    ensures
        keys_ahead(Walk::Between { depth: 1, key: true }, members_text(members) + seq!['}'])
            == members.map_values(|member: MemberText| between_quotes(member.key)),
    decreases members.len(),
{
    let keys = members.map_values(|member: MemberText| between_quotes(member.key));
    assert(is_simple_member(members[0]));
    if members.len() == 1 {
        let rest = seq!['}'];
        lemma_member(members[0], rest);
        assert(rest.drop_first() =~= Seq::<char>::empty());
        assert(keys_ahead(Walk::Between { depth: 0, key: false }, Seq::<char>::empty())
            =~= Seq::empty());
        assert(keys =~= seq![between_quotes(members[0].key)] + Seq::<Seq<char>>::empty());
    } else {
        let shorter = members.drop_first();
        let later = members_text(shorter) + seq!['}'];
        let rest = seq![','] + later;
        assert(members_text(members) + seq!['}'] =~= member_text(members[0]) + rest);
        assert forall|i: int| 0 <= i < shorter.len() implies is_simple_member(
            #[trigger] shorter[i],
        ) by {
            assert(shorter[i] == members[i + 1]);
        }
        lemma_member(members[0], rest);
        assert(rest.first() == ',');
        assert(rest.drop_first() =~= later);
        lemma_members(shorter);
        assert(keys =~= seq![between_quotes(members[0].key)] + shorter.map_values(
            |member: MemberText| between_quotes(member.key),
        ));
    }
}

proof fn lemma_skip(depth: nat, so_far: Seq<char>, text: Seq<char>, rest: Seq<char>)
    requires
        is_unescaped(text),
    ensures
        keys_ahead(
            Walk::Within { depth, key: false, text: so_far, escaped: false },
            text + rest,
        ) == keys_ahead(
            Walk::Within { depth, key: false, text: so_far + text, escaped: false },
            rest,
        ),
    decreases text.len(),
{
    if text.len() == 0 {
        assert(text + rest =~= rest);
        assert(so_far + text =~= so_far);
    } else {
        let shorter = text.drop_first();
        assert forall|i: int| 0 <= i < shorter.len() implies #[trigger] shorter[i] != '"'
            && shorter[i] != '\\' by {
            assert(shorter[i] == text[i + 1]);
        }
        assert(text[0] != '"');
        assert((text + rest).first() == text[0]);
        assert((text + rest).drop_first() =~= shorter + rest);
        lemma_skip(depth, so_far.push(text[0]), shorter, rest);
        assert(so_far.push(text[0]) + shorter =~= so_far + text);
    }
}

proof fn lemma_skip_escape(depth: nat, so_far: Seq<char>, c: char, rest: Seq<char>)
    ensures
        keys_ahead(
            Walk::Within { depth, key: false, text: so_far, escaped: false },
            escaped(c) + rest,
        ) == keys_ahead(
            Walk::Within { depth, key: false, text: so_far + escaped(c), escaped: false },
            rest,
        ),
{
    let all = escaped(c) + rest;
    if escaped(c).len() == 1 {
        lemma_skip(depth, so_far, escaped(c), rest);
    } else {
        let tail = escaped(c).skip(2);
        let after = all.drop_first();
        let next = Walk::Within { depth, key: false, text: so_far.push('\\'), escaped: true };
        assert(all.first() == '\\');
        assert(walked(
            Walk::Within { depth, key: false, text: so_far, escaped: false },
            '\\',
        ) == next);
        assert(after.first() == escaped(c)[1]);
        assert(after.drop_first() =~= tail + rest);
        assert(is_unescaped(tail)) by {
            if tail.len() > 0 {
                assert(c as nat / 16 < 2 && c as nat % 16 < 16);
                assert(tail =~= seq![
                    '0',
                    '0',
                    hex_digit(c as nat / 16),
                    hex_digit(c as nat % 16),
                ]);
            }
        }
        assert(keys_ahead(next, after) == keys_ahead(
            Walk::Within {
                depth,
                key: false,
                text: so_far.push('\\').push(escaped(c)[1]),
                escaped: false,
            },
            tail + rest,
        ));
        lemma_skip(depth, so_far.push('\\').push(escaped(c)[1]), tail, rest);
        assert(so_far.push('\\').push(escaped(c)[1]) + tail =~= so_far + escaped(c));
    }
}

proof fn lemma_escaped_within(depth: nat, so_far: Seq<char>, text: Seq<char>, rest: Seq<char>)
    ensures
        keys_ahead(
            Walk::Within { depth, key: false, text: so_far, escaped: false },
            escaped_text(text) + (seq!['"'] + rest),
        ) == keys_ahead(Walk::Between { depth, key: false }, rest),
    decreases text.len(),
{
    let end = seq!['"'] + rest;
    if text.len() == 0 {
        assert(escaped_text(text) + end =~= end);
        assert(end.first() == '"');
        assert(end.drop_first() =~= rest);
    } else {
        let shorter = text.drop_first();
        let first = seq![text[0]];
        assert(text =~= first + shorter);
        lemma_escaped_together(first, shorter);
        assert(first.drop_last() =~= Seq::<char>::empty());
        assert(escaped_text(Seq::<char>::empty()) =~= Seq::empty());
        assert(escaped_text(first) =~= escaped(text[0]));
        assert(escaped_text(text) + end =~= escaped(text[0]) + (escaped_text(shorter) + end));
        lemma_skip_escape(depth, so_far, text[0], escaped_text(shorter) + end);
        lemma_escaped_within(depth, so_far + escaped(text[0]), shorter, rest);
    }
}

/// A text stands on one line exactly when none of its characters is a line feed.
pub proof fn what_one_line_is(text: Seq<char>)
    ensures
        one_line(text) <==> forall|i: int| 0 <= i < text.len() ==> #[trigger] text[i] != '\n',
{
}

}
