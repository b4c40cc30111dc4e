//! Serialization contracts: rendering a value as JSON, YAML or XML text.
//!
//! Each contract pins the produced text to a spec-level rendering of the
//! value's model, so rendering is deterministic: equal values give equal
//! text, and rendering the same value twice gives the same text.

use crate::number::NumberValue;
use crate::value::{model_of, seq_models, entry_models, lemma_seq_models, lemma_entry_models,
    ValueModel, Value};
use vstd::prelude::*;
use vstd::string::StrSliceExecFns;
use vstd::string::StringExecFns;

verus! {

/// A trait for converting types to JSON strings.
pub trait ToJsonTrait {
    /// The JSON text this value renders to.
    spec fn json_model(&self) -> Seq<char>;

    /// Converts a type into a JSON string.
    fn to_json(&self) -> (r: String)
        ensures
            r@ == self.json_model(),
    ;
}

/// The digit character for `d`, decimal below ten and lower-case
/// hexadecimal up to sixteen.
pub open spec fn digit_char(d: int) -> char {
    if d < 10 {
        ((48 + d) as u8) as char
    } else {
        ((87 + d) as u8) as char
    }
}

/// The decimal digits of `n`, most significant first.
pub open spec fn dec_digits(n: nat) -> Seq<char>
    decreases n,
{
    if n < 10 {
        seq![digit_char(n as int)]
    } else {
        dec_digits(n / 10).push(digit_char((n % 10) as int))
    }
}

/// The decimal rendering of an integer, with a leading minus sign when
/// negative.
pub open spec fn number_text(n: int) -> Seq<char> {
    if n < 0 {
        seq!['-'] + dec_digits((-n) as nat)
    } else {
        dec_digits(n as nat)
    }
}

/// How one character appears inside a double-quoted JSON or YAML scalar.
pub open spec fn escaped_char(c: char) -> Seq<char> {
    if c == '"' {
        seq!['\\', '"']
    } else if c == '\\' {
        seq!['\\', '\\']
    } else if c == '\n' {
        seq!['\\', 'n']
    } else if c == '\r' {
        seq!['\\', 'r']
    } else if c == '\t' {
        seq!['\\', 't']
    } else if (c as u32) < 32 {
        seq!['\\', 'u', '0', '0', digit_char(c as u32 as int / 16), digit_char(
            c as u32 as int % 16,
        )]
    } else {
        seq![c]
    }
}

/// A whole character sequence, escaped for a double-quoted scalar.
pub open spec fn escaped_text(s: Seq<char>) -> Seq<char>
    decreases s,
{
    if s.len() == 0 {
        Seq::empty()
    } else {
        escaped_text(s.drop_last()) + escaped_char(s.last())
    }
}

/// The JSON rendering of a value model.
pub open spec fn json_text(v: ValueModel) -> Seq<char>
    decreases v,
{
    match v {
        ValueModel::Null => "null"@,
        ValueModel::Boolean(b) => if b {
            "true"@
        } else {
            "false"@
        },
        ValueModel::Number(n) => number_text(n),
        ValueModel::String(s) => seq!['"'] + escaped_text(s) + seq!['"'],
        ValueModel::Array(elems) => seq!['['] + json_items(elems) + seq![']'],
        ValueModel::Object(entries) => seq!['{'] + json_entries(entries) + seq!['}'],
    }
}

/// The comma-separated JSON renderings of array elements.
pub open spec fn json_items(elems: Seq<ValueModel>) -> Seq<char>
    decreases elems,
{
    if elems.len() == 0 {
        Seq::empty()
    } else if elems.len() == 1 {
        json_text(elems[0])
    } else {
        json_items(elems.drop_last()) + seq![','] + json_text(elems.last())
    }
}

/// The comma-separated JSON renderings of object entries; each entry is
/// the quoted, escaped key, a colon, and the rendered value.
pub open spec fn json_entries(entries: Seq<(Seq<char>, ValueModel)>) -> Seq<char>
    decreases entries,
{
    if entries.len() == 0 {
        Seq::empty()
    } else if entries.len() == 1 {
        seq!['"'] + escaped_text(entries[0].0) + seq!['"', ':'] + json_text(entries[0].1)
    } else {
        json_entries(entries.drop_last()) + seq![',', '"'] + escaped_text(entries.last().0)
            + seq!['"', ':'] + json_text(entries.last().1)
    }
}

/// Relies on `String::push`: appends exactly the one character.
#[verifier::external_body]
fn push_char(out: &mut String, c: char)
    ensures
        final(out)@ == old(out)@.push(c),
{
    out.push(c);
}

/// Appends one digit character (decimal or lower-case hexadecimal).
fn push_digit(d: u8, out: &mut String)
    requires
        d < 16,
    ensures
        final(out)@ == old(out)@.push(digit_char(d as int)),
{
    let c: char = if d < 10 {
        (48 + d) as char
    } else {
        (87 + d) as char
    };
    push_char(out, c);
}

/// Appends the decimal digits of `n`.
fn push_dec_digits(n: u128, out: &mut String)
    ensures
        final(out)@ == old(out)@ + dec_digits(n as nat),
    decreases n,
{
    if n >= 10 {
        push_dec_digits(n / 10, out);
        push_digit((n % 10) as u8, out);
        proof {
            assert(out@ =~= old(out)@ + dec_digits(n as nat));
        }
    } else {
        push_digit(n as u8, out);
        proof {
            assert(out@ =~= old(out)@ + dec_digits(n as nat));
        }
    }
}

/// Appends the decimal rendering of a number.
fn write_number(num: &NumberValue, out: &mut String)
    ensures
        final(out)@ == old(out)@ + number_text(num@),
{
    match *num {
        NumberValue::Signed(n) => {
            if n < 0 {
                push_char(out, '-');
                let mag: u128 = ((-(n + 1)) as u128) + 1;
                assert(mag as nat == (-(n as int)) as nat);
                push_dec_digits(mag, out);
                proof {
                    assert(out@ =~= old(out)@ + number_text(num@));
                }
            } else {
                push_dec_digits(n as u128, out);
            }
        },
        NumberValue::Unsigned(n) => {
            push_dec_digits(n, out);
        },
    }
}

/// Appends `s`, escaped for a double-quoted scalar.
fn write_escaped(s: &str, out: &mut String)
    ensures
        final(out)@ == old(out)@ + escaped_text(s@),
{
    let n = s.unicode_len();
    let mut i: usize = 0;
    while i < n
        invariant
            n == s@.len(),
            i <= n,
            out@ == old(out)@ + escaped_text(s@.subrange(0, i as int)),
        decreases n - i,
    {
        let c = s.get_char(i);
        if c == '"' {
            push_char(out, '\\');
            push_char(out, '"');
        } else if c == '\\' {
            push_char(out, '\\');
            push_char(out, '\\');
        } else if c == '\n' {
            push_char(out, '\\');
            push_char(out, 'n');
        } else if c == '\r' {
            push_char(out, '\\');
            push_char(out, 'r');
        } else if c == '\t' {
            push_char(out, '\\');
            push_char(out, 't');
        } else if (c as u32) < 32 {
            let code = c as u32;
            push_char(out, '\\');
            push_char(out, 'u');
            push_char(out, '0');
            push_char(out, '0');
            push_digit((code / 16) as u8, out);
            push_digit((code % 16) as u8, out);
        } else {
            push_char(out, c);
        }
        proof {
            assert(s@.subrange(0, i + 1 as int).drop_last() =~= s@.subrange(0, i as int));
            assert(s@.subrange(0, i + 1 as int).last() == c);
            assert(out@ =~= old(out)@ + escaped_text(s@.subrange(0, i + 1 as int)));
        }
        i += 1;
    }
    proof {
        assert(s@.subrange(0, n as int) =~= s@);
    }
}

/// Appends the JSON rendering of a value.
#[verifier::loop_isolation(false)]
fn write_json(v: &Value, out: &mut String)
    ensures
        final(out)@ == old(out)@ + json_text(v@),
    decreases *v,
{
    match v {
        Value::Null => {
            out.append("null");
        },
        Value::Boolean(b) => {
            if *b {
                out.append("true");
            } else {
                out.append("false");
            }
        },
        Value::Number(n) => {
            write_number(n, out);
        },
        Value::String(s) => {
            push_char(out, '"');
            write_escaped(s.as_str(), out);
            push_char(out, '"');
            proof {
                assert(out@ =~= old(out)@ + json_text(v@));
            }
        },
        Value::Array(arr) => {
            proof {
                lemma_seq_models(arr@);
            }
            let ghost ms = seq_models(arr@);
            push_char(out, '[');
            let mut i: usize = 0;
            while i < arr.len()
                invariant
                    i <= arr.len(),
                    ms == seq_models(arr@),
                    ms.len() == arr@.len(),
                    forall|j: int| 0 <= j < arr@.len() ==> ms[j] == model_of(#[trigger] arr@[j]),
                    out@ == old(out)@ + seq!['['] + json_items(ms.subrange(0, i as int)),
                decreases arr.len() - i,
            {
                if i > 0 {
                    push_char(out, ',');
                }
                proof {
                    assert(decreases_to!(*v => *arr));
                    assert(decreases_to!(*arr => arr[i as int]));
                }
                write_json(&arr[i], out);
                proof {
                    assert(ms.subrange(0, i + 1 as int).drop_last() =~= ms.subrange(0, i as int));
                    assert(ms.subrange(0, i + 1 as int).last() == ms[i as int]);
                    assert(out@ =~= old(out)@ + seq!['['] + json_items(ms.subrange(0, i + 1 as int)));
                }
                i += 1;
            }
            push_char(out, ']');
            proof {
                assert(ms.subrange(0, ms.len() as int) =~= ms);
                assert(out@ =~= old(out)@ + json_text(v@));
            }
        },
        Value::Object(entries) => {
            proof {
                lemma_entry_models(entries@);
            }
            let ghost ms = entry_models(entries@);
            push_char(out, '{');
            let mut i: usize = 0;
            while i < entries.len()
                invariant
                    i <= entries.len(),
                    ms == entry_models(entries@),
                    ms.len() == entries@.len(),
                    forall|j: int|
                        0 <= j < entries@.len() ==> ms[j] == ((#[trigger] entries@[j]).0@, model_of(
                            entries@[j].1,
                        )),
                    out@ == old(out)@ + seq!['{'] + json_entries(ms.subrange(0, i as int)),
                decreases entries.len() - i,
            {
                if i > 0 {
                    push_char(out, ',');
                }
                push_char(out, '"');
                write_escaped(entries[i].0.as_str(), out);
                push_char(out, '"');
                push_char(out, ':');
                proof {
                    assert(decreases_to!(*v => *entries));
                    assert(decreases_to!(*entries => entries[i as int]));
                    assert(decreases_to!(entries[i as int] => entries[i as int].1));
                }
                write_json(&entries[i].1, out);
                proof {
                    assert(ms.subrange(0, i + 1 as int).drop_last() =~= ms.subrange(0, i as int));
                    assert(ms.subrange(0, i + 1 as int).last() == ms[i as int]);
                    assert(out@ =~= old(out)@ + seq!['{'] + json_entries(
                        ms.subrange(0, i + 1 as int),
                    ));
                }
                i += 1;
            }
            push_char(out, '}');
            proof {
                assert(ms.subrange(0, ms.len() as int) =~= ms);
                assert(out@ =~= old(out)@ + json_text(v@));
            }
        },
    }
}

impl ToJsonTrait for Value {
    open spec fn json_model(&self) -> Seq<char> {
        json_text(self@)
    }

    fn to_json(&self) -> (r: String) {
        let mut out = String::new();
        write_json(self, &mut out);
        proof {
            assert(out@ =~= json_text(self@));
        }
        out
    }
}

/// Rendering is deterministic: any two texts that meet the JSON contract
/// for the same value are equal.
pub proof fn lemma_json_deterministic<T: ToJsonTrait>(x: &T, r1: Seq<char>, r2: Seq<char>)
    requires
        r1 == x.json_model(),
        r2 == x.json_model(),
    ensures
        r1 == r2,
{
}

/// A trait for converting types to YAML strings.
pub trait ToYamlTrait {
    /// The YAML text this value renders to.
    spec fn yaml_model(&self) -> Seq<char>;

    /// Converts a type into a YAML string.
    fn to_yaml(&self) -> (r: String)
        ensures
            r@ == self.yaml_model(),
    ;
}

/// The YAML rendering of a value model, in flow style.
pub open spec fn yaml_text(v: ValueModel) -> Seq<char>
    decreases v,
{
    match v {
        ValueModel::Null => "~"@,
        ValueModel::Boolean(b) => if b {
            "true"@
        } else {
            "false"@
        },
        ValueModel::Number(n) => number_text(n),
        ValueModel::String(s) => seq!['"'] + escaped_text(s) + seq!['"'],
        ValueModel::Array(elems) => seq!['['] + yaml_items(elems) + seq![']'],
        ValueModel::Object(entries) => seq!['{'] + yaml_entries(entries) + seq!['}'],
    }
}

/// The comma-separated YAML renderings of array elements.
pub open spec fn yaml_items(elems: Seq<ValueModel>) -> Seq<char>
    decreases elems,
{
    if elems.len() == 0 {
        Seq::empty()
    } else if elems.len() == 1 {
        yaml_text(elems[0])
    } else {
        yaml_items(elems.drop_last()) + seq![',', ' '] + yaml_text(elems.last())
    }
}

/// The comma-separated YAML renderings of object entries; each entry is
/// the quoted, escaped key, a colon and a space, and the rendered value.
pub open spec fn yaml_entries(entries: Seq<(Seq<char>, ValueModel)>) -> Seq<char>
    decreases entries,
{
    if entries.len() == 0 {
        Seq::empty()
    } else if entries.len() == 1 {
        seq!['"'] + escaped_text(entries[0].0) + seq!['"', ':', ' '] + yaml_text(entries[0].1)
    } else {
        yaml_entries(entries.drop_last()) + seq![',', ' ', '"'] + escaped_text(entries.last().0)
            + seq!['"', ':', ' '] + yaml_text(entries.last().1)
    }
}

/// Appends the YAML rendering of a value.
#[verifier::loop_isolation(false)]
#[verifier::rlimit(60)]
fn write_yaml(v: &Value, out: &mut String)
    ensures
        final(out)@ == old(out)@ + yaml_text(v@),
    decreases *v,
{
    match v {
        Value::Null => {
            out.append("~");
        },
        Value::Boolean(b) => {
            if *b {
                out.append("true");
            } else {
                out.append("false");
            }
        },
        Value::Number(n) => {
            write_number(n, out);
        },
        Value::String(s) => {
            push_char(out, '"');
            write_escaped(s.as_str(), out);
            push_char(out, '"');
            proof {
                assert(out@ =~= old(out)@ + yaml_text(v@));
            }
        },
        Value::Array(arr) => {
            proof {
                lemma_seq_models(arr@);
            }
            let ghost ms = seq_models(arr@);
            push_char(out, '[');
            let mut i: usize = 0;
            while i < arr.len()
                invariant
                    i <= arr.len(),
                    out@ == old(out)@ + seq!['['] + yaml_items(ms.subrange(0, i as int)),
                decreases arr.len() - i,
            {
                if i > 0 {
                    push_char(out, ',');
                    push_char(out, ' ');
                }
                proof {
                    assert(decreases_to!(*v => *arr));
                    assert(decreases_to!(*arr => arr[i as int]));
                }
                write_yaml(&arr[i], out);
                proof {
                    assert(ms.subrange(0, i + 1 as int).drop_last() =~= ms.subrange(0, i as int));
                    assert(ms.subrange(0, i + 1 as int).last() == ms[i as int]);
                    assert(out@ =~= old(out)@ + seq!['['] + yaml_items(ms.subrange(0, i + 1 as int)));
                }
                i += 1;
            }
            push_char(out, ']');
            proof {
                assert(ms.subrange(0, ms.len() as int) =~= ms);
                assert(out@ =~= old(out)@ + yaml_text(v@));
            }
        },
        Value::Object(entries) => {
            proof {
                lemma_entry_models(entries@);
            }
            let ghost ms = entry_models(entries@);
            push_char(out, '{');
            let mut i: usize = 0;
            while i < entries.len()
                invariant
                    i <= entries.len(),
                    out@ == old(out)@ + seq!['{'] + yaml_entries(ms.subrange(0, i as int)),
                decreases entries.len() - i,
            {
                if i > 0 {
                    push_char(out, ',');
                    push_char(out, ' ');
                }
                push_char(out, '"');
                write_escaped(entries[i].0.as_str(), out);
                push_char(out, '"');
                push_char(out, ':');
                push_char(out, ' ');
                proof {
                    assert(decreases_to!(*v => *entries));
                    assert(decreases_to!(*entries => entries[i as int]));
                    assert(decreases_to!(entries[i as int] => entries[i as int].1));
                }
                write_yaml(&entries[i].1, out);
                proof {
                    assert(ms.subrange(0, i + 1 as int).drop_last() =~= ms.subrange(0, i as int));
                    assert(ms.subrange(0, i + 1 as int).last() == ms[i as int]);
                    assert(out@ =~= old(out)@ + seq!['{'] + yaml_entries(
                        ms.subrange(0, i + 1 as int),
                    ));
                }
                i += 1;
            }
            push_char(out, '}');
            proof {
                assert(ms.subrange(0, ms.len() as int) =~= ms);
                assert(out@ =~= old(out)@ + yaml_text(v@));
            }
        },
    }
}

impl ToYamlTrait for Value {
    open spec fn yaml_model(&self) -> Seq<char> {
        yaml_text(self@)
    }

    fn to_yaml(&self) -> (r: String) {
        let mut out = String::new();
        write_yaml(self, &mut out);
        proof {
            assert(out@ =~= yaml_text(self@));
        }
        out
    }
}

/// Rendering is deterministic: any two texts that meet the YAML contract
/// for the same value are equal.
pub proof fn lemma_yaml_deterministic<T: ToYamlTrait>(x: &T, r1: Seq<char>, r2: Seq<char>)
    requires
        r1 == x.yaml_model(),
        r2 == x.yaml_model(),
    ensures
        r1 == r2,
{
}

/// A trait for converting types to XML strings.
pub trait ToXmlTrait {
    /// The XML text this value renders to.
    spec fn xml_model(&self) -> Seq<char>;

    /// Converts a type into an XML string.
    fn to_xml(&self) -> (r: String)
        ensures
            r@ == self.xml_model(),
    ;
}

/// How one character appears inside XML text or a quoted attribute.
pub open spec fn xml_escaped_char(c: char) -> Seq<char> {
    if c == '&' {
        "&amp;"@
    } else if c == '<' {
        "&lt;"@
    } else if c == '>' {
        "&gt;"@
    } else if c == '"' {
        "&quot;"@
    } else {
        seq![c]
    }
}

/// A whole character sequence, escaped for XML.
pub open spec fn xml_escaped_text(s: Seq<char>) -> Seq<char>
    decreases s,
{
    if s.len() == 0 {
        Seq::empty()
    } else {
        xml_escaped_text(s.drop_last()) + xml_escaped_char(s.last())
    }
}

/// The XML rendering of a value model.
pub open spec fn xml_text(v: ValueModel) -> Seq<char>
    decreases v,
{
    match v {
        ValueModel::Null => "<null/>"@,
        ValueModel::Boolean(b) => if b {
            "<bool>true</bool>"@
        } else {
            "<bool>false</bool>"@
        },
        ValueModel::Number(n) => "<number>"@ + number_text(n) + "</number>"@,
        ValueModel::String(s) => "<string>"@ + xml_escaped_text(s) + "</string>"@,
        ValueModel::Array(elems) => "<array>"@ + xml_items(elems) + "</array>"@,
        ValueModel::Object(entries) => "<object>"@ + xml_entries(entries) + "</object>"@,
    }
}

/// The concatenated XML renderings of array elements.
pub open spec fn xml_items(elems: Seq<ValueModel>) -> Seq<char>
    decreases elems,
{
    if elems.len() == 0 {
        Seq::empty()
    } else {
        xml_items(elems.drop_last()) + xml_text(elems.last())
    }
}

/// The concatenated XML renderings of object entries; each entry carries
/// its escaped key as an attribute.
pub open spec fn xml_entries(entries: Seq<(Seq<char>, ValueModel)>) -> Seq<char>
    decreases entries,
{
    if entries.len() == 0 {
        Seq::empty()
    } else {
        xml_entries(entries.drop_last()) + "<entry key=\""@ + xml_escaped_text(entries.last().0)
            + "\">"@ + xml_text(entries.last().1) + "</entry>"@
    }
}

/// Appends `s`, escaped for XML.
fn write_xml_escaped(s: &str, out: &mut String)
    ensures
        final(out)@ == old(out)@ + xml_escaped_text(s@),
{
    let n = s.unicode_len();
    let mut i: usize = 0;
    while i < n
        invariant
            n == s@.len(),
            i <= n,
            out@ == old(out)@ + xml_escaped_text(s@.subrange(0, i as int)),
        decreases n - i,
    {
        let c = s.get_char(i);
        if c == '&' {
            out.append("&amp;");
        } else if c == '<' {
            out.append("&lt;");
        } else if c == '>' {
            out.append("&gt;");
        } else if c == '"' {
            out.append("&quot;");
        } else {
            push_char(out, c);
        }
        proof {
            assert(s@.subrange(0, i + 1 as int).drop_last() =~= s@.subrange(0, i as int));
            assert(s@.subrange(0, i + 1 as int).last() == c);
            assert(out@ =~= old(out)@ + xml_escaped_text(s@.subrange(0, i + 1 as int)));
        }
        i += 1;
    }
    proof {
        assert(s@.subrange(0, n as int) =~= s@);
    }
}

/// Appends the XML rendering of a value.
#[verifier::loop_isolation(false)]
fn write_xml(v: &Value, out: &mut String)
    ensures
        final(out)@ == old(out)@ + xml_text(v@),
    decreases *v,
{
    match v {
        Value::Null => {
            out.append("<null/>");
        },
        Value::Boolean(b) => {
            if *b {
                out.append("<bool>true</bool>");
            } else {
                out.append("<bool>false</bool>");
            }
        },
        Value::Number(n) => {
            out.append("<number>");
            write_number(n, out);
            out.append("</number>");
            proof {
                assert(out@ =~= old(out)@ + xml_text(v@));
            }
        },
        Value::String(s) => {
            out.append("<string>");
            write_xml_escaped(s.as_str(), out);
            out.append("</string>");
            proof {
                assert(out@ =~= old(out)@ + xml_text(v@));
            }
        },
        Value::Array(arr) => {
            proof {
                lemma_seq_models(arr@);
            }
            let ghost ms = seq_models(arr@);
            out.append("<array>");
            let mut i: usize = 0;
            while i < arr.len()
                invariant
                    i <= arr.len(),
                    out@ == old(out)@ + "<array>"@ + xml_items(ms.subrange(0, i as int)),
                decreases arr.len() - i,
            {
                proof {
                    assert(decreases_to!(*v => *arr));
                    assert(decreases_to!(*arr => arr[i as int]));
                }
                write_xml(&arr[i], out);
                proof {
                    assert(ms.subrange(0, i + 1 as int).drop_last() =~= ms.subrange(0, i as int));
                    assert(ms.subrange(0, i + 1 as int).last() == ms[i as int]);
                    assert(out@ =~= old(out)@ + "<array>"@ + xml_items(
                        ms.subrange(0, i + 1 as int),
                    ));
                }
                i += 1;
            }
            out.append("</array>");
            proof {
                assert(ms.subrange(0, ms.len() as int) =~= ms);
                assert(out@ =~= old(out)@ + xml_text(v@));
            }
        },
        Value::Object(entries) => {
            proof {
                lemma_entry_models(entries@);
            }
            let ghost ms = entry_models(entries@);
            out.append("<object>");
            let mut i: usize = 0;
            while i < entries.len()
                invariant
                    i <= entries.len(),
                    out@ == old(out)@ + "<object>"@ + xml_entries(ms.subrange(0, i as int)),
                decreases entries.len() - i,
            {
                out.append("<entry key=\"");
                write_xml_escaped(entries[i].0.as_str(), out);
                out.append("\">");
                proof {
                    assert(decreases_to!(*v => *entries));
                    assert(decreases_to!(*entries => entries[i as int]));
                    assert(decreases_to!(entries[i as int] => entries[i as int].1));
                }
                write_xml(&entries[i].1, out);
                out.append("</entry>");
                proof {
                    assert(ms.subrange(0, i + 1 as int).drop_last() =~= ms.subrange(0, i as int));
                    assert(ms.subrange(0, i + 1 as int).last() == ms[i as int]);
                    assert(out@ =~= old(out)@ + "<object>"@ + xml_entries(
                        ms.subrange(0, i + 1 as int),
                    ));
                }
                i += 1;
            }
            out.append("</object>");
            proof {
                assert(ms.subrange(0, ms.len() as int) =~= ms);
                assert(out@ =~= old(out)@ + xml_text(v@));
            }
        },
    }
}

impl ToXmlTrait for Value {
    open spec fn xml_model(&self) -> Seq<char> {
        xml_text(self@)
    }

    fn to_xml(&self) -> (r: String) {
        let mut out = String::new();
        write_xml(self, &mut out);
        proof {
            assert(out@ =~= xml_text(self@));
        }
        out
    }
}

/// Rendering is deterministic: any two texts that meet the XML contract
/// for the same value are equal.
pub proof fn lemma_xml_deterministic<T: ToXmlTrait>(x: &T, r1: Seq<char>, r2: Seq<char>)
    requires
        r1 == x.xml_model(),
        r2 == x.xml_model(),
    ensures
        r1 == r2,
{
}

} // verus!
