//! What holds of the hidden fields of every page.
//!
//! A hidden input that is written in the usual way is read back as it was
//! written, whatever the order of its attributes and whichever quotes they
//! use, and the last hidden input of a name settles the field of that name.

use vstd::prelude::*;
use crate::form_fields::{
    attribute_at, attributes, field_value, hidden_field, hidden_fields, hidden_inputs,
    is_name_char, is_name_start, is_space, last_value, lemma_name_end_is, next_input_tag,
    space_end, Attribute,
};
use crate::text::{
    eq_ignore_ascii_case, index_of, index_of_char, lemma_index_of, lemma_index_of_char,
    lemma_index_of_char_is, occurs_at,
};

verus! {

/// An attribute as it is written in a tag.
pub struct WrittenAttribute {
    pub name: Seq<char>,
    pub value: Seq<char>,
    pub quote: char,
}

/// Whether an attribute can be written: its name begins with a letter, `_`,
/// `:` or `-` and goes on with those and digits, its quote is `"` or `'`, and
/// its value holds neither its quote nor `>`.
pub open spec fn is_writable(a: WrittenAttribute) -> bool {
    &&& a.name.len() > 0
    &&& is_name_start(a.name[0])
    &&& forall|i: int| 0 <= i < a.name.len() ==> is_name_char(#[trigger] a.name[i])
    &&& (a.quote == '"' || a.quote == '\'')
    &&& forall|i: int|
        0 <= i < a.value.len() ==> #[trigger] a.value[i] != a.quote && a.value[i] != '>'
}

/// Whether every attribute of a list can be written.
pub open spec fn all_writable(attrs: Seq<WrittenAttribute>) -> bool {
    forall|i: int| 0 <= i < attrs.len() ==> is_writable(#[trigger] attrs[i])
}

/// The text of an attribute: a space, the name, `=`, and the value between
/// two quotes.
pub open spec fn written(a: WrittenAttribute) -> Seq<char> {
    seq![' '] + a.name + seq!['=', a.quote] + a.value + seq![a.quote]
}

/// The text of a list of attributes, one after the other.
pub open spec fn written_all(attrs: Seq<WrittenAttribute>) -> Seq<char>
    decreases attrs.len(),
{
    if attrs.len() == 0 {
        Seq::empty()
    } else {
        written(attrs.first()) + written_all(attrs.drop_first())
    }
}

/// The text of an input tag with the given attributes.
pub open spec fn input_tag(attrs: Seq<WrittenAttribute>) -> Seq<char> {
    "<input"@ + written_all(attrs) + seq!['>']
}

/// The names and values of a list of attributes.
pub open spec fn names_and_values(attrs: Seq<WrittenAttribute>) -> Seq<(Seq<char>, Seq<char>)> {
    Seq::new(attrs.len(), |i: int| (attrs[i].name, attrs[i].value))
}

/// The field that a tag with the given attributes is written to hold: the
/// values of its last `name` and its last `value`, provided that its last
/// `type` is `hidden`; attribute names and the word `hidden` count without
/// regard to ASCII case.
pub open spec fn written_field(attrs: Seq<WrittenAttribute>) -> Option<(Seq<char>, Seq<char>)> {
    let pairs = names_and_values(attrs);
    match (last_value(pairs, "type"@), last_value(pairs, "name"@), last_value(pairs, "value"@)) {
        (Some(kind), Some(name), Some(value)) => if eq_ignore_ascii_case(kind, "hidden"@) {
            Some((name, value))
        } else {
            None
        },
        _ => None,
    }
}

/// Every `<input` that begins before `upto` is closed by a `>` before `upto`.
pub open spec fn closed_before(html: Seq<char>, upto: int) -> bool {
    forall|i: int|
        0 <= i < upto && #[trigger] occurs_at(html, "<input"@, i) ==> index_of_char(
            html,
            '>',
            i + 6,
        ) < upto
}

/// No hidden input that begins at or after `from` has the name `name`.
pub open spec fn unnamed_from(html: Seq<char>, from: int, name: Seq<char>) -> bool {
    forall|k: int|
        0 <= k < hidden_inputs(html, from).len() ==> (#[trigger] hidden_inputs(html, from)[k]).0
            != name
}

/// A run of white space ends where the first other character stands.
proof fn lemma_space_end_is(tag: Seq<char>, from: int, at: int)
    requires
        0 <= from <= at <= tag.len(),
        forall|i: int| from <= i < at ==> is_space(#[trigger] tag[i]),
        at < tag.len() ==> !is_space(tag[at]),
    ensures
        space_end(tag, from) == at,
    decreases at - from,
{
    if from < at {
        lemma_space_end_is(tag, from + 1, at);
    }
}

/// The characters of a written attribute, one by one.
proof fn lemma_written_chars(a: WrittenAttribute)
    ensures
        written(a).len() == a.name.len() + a.value.len() + 4,
        written(a)[0] == ' ',
        forall|i: int| 0 <= i < a.name.len() ==> written(a)[1 + i] == #[trigger] a.name[i],
        written(a)[1 + a.name.len() as int] == '=',
        written(a)[2 + a.name.len() as int] == a.quote,
        forall|i: int|
            0 <= i < a.value.len() ==> written(a)[3 + a.name.len() + i] == #[trigger] a.value[i],
        written(a)[3 + a.name.len() as int + a.value.len() as int] == a.quote,
{
    let n = a.name.len() as int;
    let v = a.value.len() as int;
    let head = seq![' '] + a.name;
    let opened = head + seq!['=', a.quote];
    let filled = opened + a.value;
    assert(head.len() == 1 + n);
    assert(opened.len() == 3 + n);
    assert(filled.len() == 3 + n + v);
    assert forall|i: int| 0 <= i < n implies written(a)[1 + i] == #[trigger] a.name[i] by {
        assert(head[1 + i] == a.name[i]);
        assert(opened[1 + i] == head[1 + i]);
        assert(filled[1 + i] == opened[1 + i]);
    }
    assert(opened[1 + n] == '=');
    assert(opened[2 + n] == a.quote);
    assert(filled[1 + n] == opened[1 + n]);
    assert(filled[2 + n] == opened[2 + n]);
    assert forall|i: int| 0 <= i < v implies written(a)[3 + n + i] == #[trigger] a.value[i] by {
        assert(filled[3 + n + i] == a.value[i]);
    }
    assert(head[0] == ' ');
    assert(opened[0] == head[0]);
    assert(filled[0] == opened[0]);
}

/// No written attribute holds a `>`.
proof fn lemma_written_has_no_bracket(a: WrittenAttribute)
    requires
        is_writable(a),
    ensures
        forall|i: int| 0 <= i < written(a).len() ==> #[trigger] written(a)[i] != '>',
{
    lemma_written_chars(a);
    let n = a.name.len() as int;
    let v = a.value.len() as int;
    assert forall|i: int| 0 <= i < written(a).len() implies #[trigger] written(a)[i] != '>' by {
        if 1 <= i < 1 + n {
            assert(written(a)[1 + (i - 1)] == a.name[i - 1]);
            assert(is_name_char(a.name[i - 1]));
        } else if 3 + n <= i < 3 + n + v {
            assert(written(a)[3 + n + (i - 3 - n)] == a.value[i - 3 - n]);
        }
    }
}

/// No text of written attributes holds a `>`.
proof fn lemma_written_all_has_no_bracket(attrs: Seq<WrittenAttribute>)
    requires
        all_writable(attrs),
    ensures
        forall|i: int| 0 <= i < written_all(attrs).len() ==> #[trigger] written_all(attrs)[i] != '>',
    decreases attrs.len(),
{
    if attrs.len() > 0 {
        let first = attrs.first();
        let rest = attrs.drop_first();
        assert(is_writable(attrs[0]));
        assert forall|i: int| 0 <= i < rest.len() implies is_writable(#[trigger] rest[i]) by {
            assert(rest[i] == attrs[i + 1]);
        }
        lemma_written_has_no_bracket(first);
        lemma_written_all_has_no_bracket(rest);
        assert forall|i: int| 0 <= i < written_all(attrs).len() implies #[trigger] written_all(
            attrs,
        )[i] != '>' by {
            if i < written(first).len() {
                assert(written_all(attrs)[i] == written(first)[i]);
            } else {
                assert(written_all(attrs)[i] == written_all(rest)[i - written(first).len()]);
            }
        }
    }
}

/// A written attribute that stands at `at` in a tag is read there: nothing
/// begins at its leading space, and behind the space the attribute is read
/// with its name and its value, up to the end of what was written.
proof fn lemma_attribute_is_read(tag: Seq<char>, at: int, a: WrittenAttribute)
    requires
        is_writable(a),
        occurs_at(tag, written(a), at),
    ensures
        attribute_at(tag, at) is None,
        attribute_at(tag, at + 1) == Some(
            Attribute { name: a.name, value: a.value, end: at + written(a).len() },
        ),
{
    let w = written(a);
    let n = a.name.len() as int;
    let v = a.value.len() as int;
    lemma_written_chars(a);
    assert forall|i: int| 0 <= i < w.len() implies tag[at + i] == w[i] by {
        assert(tag.subrange(at, at + w.len())[i] == tag[at + i]);
    }
    assert(tag[at + 0] == w[0]);
    assert(!is_name_start(tag[at]));
    assert(tag[at + 1] == w[1]);
    assert(w[1 + 0int] == a.name[0]);
    assert(is_name_start(tag[at + 1]));
    assert forall|i: int| at + 2 <= i < at + 1 + n implies is_name_char(#[trigger] tag[i]) by {
        assert(tag[at + (1 + (i - at - 1))] == w[1 + (i - at - 1)]);
        assert(w[1 + (i - at - 1)] == a.name[i - at - 1]);
    }
    assert(tag[at + (1 + n)] == w[1 + n]);
    assert(tag[at + 1 + n] == '=');
    lemma_name_end_is(tag, at + 2, at + 1 + n);
    lemma_space_end_is(tag, at + 1 + n, at + 1 + n);
    assert(tag[at + (2 + n)] == w[2 + n]);
    assert(tag[at + 2 + n] == a.quote);
    lemma_space_end_is(tag, at + 2 + n, at + 2 + n);
    assert forall|i: int| at + 3 + n <= i < at + 3 + n + v implies #[trigger] tag[i]
        != a.quote by {
        assert(tag[at + (3 + n + (i - at - 3 - n))] == w[3 + n + (i - at - 3 - n)]);
        assert(w[3 + n + (i - at - 3 - n)] == a.value[i - at - 3 - n]);
    }
    assert(tag[at + (3 + n + v)] == w[3 + n + v]);
    lemma_index_of_char_is(tag, a.quote, at + 3 + n, at + 3 + n + v);
    assert(tag.subrange(at + 1, at + 1 + n) =~= a.name) by {
        assert forall|i: int| 0 <= i < n implies tag.subrange(at + 1, at + 1 + n)[i]
            == a.name[i] by {
            assert(tag[at + (1 + i)] == w[1 + i]);
        }
    }
    assert(tag.subrange(at + 3 + n, at + 3 + n + v) =~= a.value) by {
        assert forall|i: int| 0 <= i < v implies tag.subrange(at + 3 + n, at + 3 + n + v)[i]
            == a.value[i] by {
            assert(tag[at + (3 + n + i)] == w[3 + n + i]);
        }
    }
}

/// Where the rest of a tag is written attributes and the closing `>`, the
/// attributes are read back with the names and values that were written.
proof fn lemma_attributes_from(tag: Seq<char>, from: int, attrs: Seq<WrittenAttribute>)
    requires
        0 <= from <= tag.len(),
        tag.subrange(from, tag.len() as int) == written_all(attrs) + seq!['>'],
        all_writable(attrs),
    ensures
        attributes(tag, from) == names_and_values(attrs),
    decreases attrs.len(),
{
    let tail = tag.subrange(from, tag.len() as int);
    if attrs.len() == 0 {
        assert(tail.len() == 1);
        assert(tail[0] == '>');
        assert(tag[from] == '>');
        assert(attribute_at(tag, from) is None);
        assert(attributes(tag, from + 1) =~= Seq::empty());
        assert(attributes(tag, from) =~= names_and_values(attrs));
    } else {
        let first = attrs.first();
        let rest = attrs.drop_first();
        let w = written(first);
        assert(is_writable(attrs[0]));
        assert forall|i: int| 0 <= i < rest.len() implies is_writable(#[trigger] rest[i]) by {
            assert(rest[i] == attrs[i + 1]);
        }
        lemma_written_chars(first);
        assert(written_all(attrs) == w + written_all(rest));
        assert(tail.len() == w.len() + written_all(rest).len() + 1);
        assert(tail.len() == tag.len() - from);
        assert(tag.subrange(from, from + w.len()) =~= w) by {
            assert forall|i: int| 0 <= i < w.len() implies tag.subrange(from, from + w.len())[i]
                == w[i] by {
                assert(tail[i] == tag[from + i]);
                assert(tail[i] == written_all(attrs)[i]);
            }
        }
        assert(tag.subrange(from + w.len(), tag.len() as int) =~= written_all(rest) + seq!['>']) by {
            let next = tag.subrange(from + w.len(), tag.len() as int);
            assert(next.len() == written_all(rest).len() + 1);
            assert forall|i: int| 0 <= i < next.len() implies next[i] == (written_all(rest)
                + seq!['>'])[i] by {
                assert(next[i] == tail[w.len() + i]);
            }
        }
        lemma_attribute_is_read(tag, from, first);
        lemma_attributes_from(tag, from + w.len(), rest);
        assert(attributes(tag, from) == attributes(tag, from + 1));
        assert(attributes(tag, from + 1) == seq![(first.name, first.value)] + attributes(
            tag,
            from + w.len(),
        ));
        assert(names_and_values(attrs) =~= seq![(first.name, first.value)] + names_and_values(rest));
    }
}

/// An input tag is read back as it was written: its attributes come out
/// with the names and values that were written, whatever their order and
/// whichever quotes they use, so the tag contributes the field that it was
/// written to hold. Its only `>` is its last character.
pub proof fn lemma_written_tag_is_read(attrs: Seq<WrittenAttribute>)
    requires
        all_writable(attrs),
    ensures
        attributes(input_tag(attrs), 0) == names_and_values(attrs),
        hidden_field(input_tag(attrs)) == written_field(attrs),
        index_of_char(input_tag(attrs), '>', 6) == input_tag(attrs).len() - 1,
        occurs_at(input_tag(attrs), "<input"@, 0),
{
    reveal_strlit("<input");
    let tag = input_tag(attrs);
    let body = written_all(attrs);
    assert(tag.len() == 6 + body.len() + 1);
    assert forall|i: int| 0 <= i < 6 implies tag[i] == "<input"@[i] by {}
    assert(tag.subrange(0, 6) =~= "<input"@);
    assert forall|i: int| 0 <= i < body.len() implies tag[6 + i] == body[i] by {}
    let b = body.len() as int;
    assert(tag[6 + b] == '>');
    lemma_written_all_has_no_bracket(attrs);
    assert forall|i: int| 6 <= i < 6 + body.len() implies #[trigger] tag[i] != '>' by {
        assert(tag[6 + (i - 6)] == body[i - 6]);
    }
    lemma_index_of_char_is(tag, '>', 6, 6 + b);
    assert(tag.subrange(6, tag.len() as int) =~= body + seq!['>']);
    lemma_attributes_from(tag, 6, attrs);
    if attrs.len() > 0 {
        let first = attrs.first();
        assert(is_writable(attrs[0]));
        lemma_written_chars(first);
        assert(body[0] == written(first)[0]);
        assert(body[1] == written(first)[1]);
        assert(written(first)[1 + 0int] == first.name[0]);
        assert(tag[6 + 0int] == body[0]);
        assert(tag[6 + 1int] == body[1]);
        assert(tag[6] == ' ');
        assert(tag[7] == first.name[0]);
        lemma_space_end_is(tag, 6, 7);
    } else {
        assert(tag[6] == '>');
        lemma_space_end_is(tag, 6, 6);
    }
    assert(!is_name_char(tag[6]));
    assert(space_end(tag, 6) < tag.len() && tag[space_end(tag, 6)] != '=');
    assert(attribute_at(tag, 0) is None);
    assert forall|k: int| 1 <= k < 6 implies attribute_at(tag, k) is None by {
        assert forall|i: int| k + 1 <= i < 6 implies is_name_char(#[trigger] tag[i]) by {}
        lemma_name_end_is(tag, k + 1, 6);
    }
    assert(attributes(tag, 5) == attributes(tag, 6));
    assert(attributes(tag, 4) == attributes(tag, 5));
    assert(attributes(tag, 3) == attributes(tag, 4));
    assert(attributes(tag, 2) == attributes(tag, 3));
    assert(attributes(tag, 1) == attributes(tag, 2));
    assert(attributes(tag, 0) == attributes(tag, 1));
}

/// The value of a field after two runs of inputs is its value after the
/// second run, with its value after the first as the default.
proof fn lemma_field_value_concat(
    a: Seq<(Seq<char>, Seq<char>)>,
    b: Seq<(Seq<char>, Seq<char>)>,
    name: Seq<char>,
    default: Seq<char>,
)
    ensures
        field_value(a + b, name, default) == field_value(b, name, field_value(a, name, default)),
    decreases b.len(),
{
    if b.len() == 0 {
        assert(a + b =~= a);
    } else {
        assert((a + b).drop_last() =~= a + b.drop_last());
        assert((a + b).last() == b.last());
        lemma_field_value_concat(a, b.drop_last(), name, default);
    }
}

/// Inputs of other names leave a field at its default.
proof fn lemma_other_names_keep_default(
    inputs: Seq<(Seq<char>, Seq<char>)>,
    name: Seq<char>,
    default: Seq<char>,
)
    requires
        forall|k: int| 0 <= k < inputs.len() ==> (#[trigger] inputs[k]).0 != name,
    ensures
        field_value(inputs, name, default) == default,
    decreases inputs.len(),
{
    if inputs.len() > 0 {
        assert(inputs.last() == inputs[inputs.len() - 1]);
        assert forall|k: int| 0 <= k < inputs.drop_last().len() implies (
        #[trigger] inputs.drop_last()[k]).0 != name by {
            assert(inputs.drop_last()[k] == inputs[k]);
        }
        lemma_other_names_keep_default(inputs.drop_last(), name, default);
    }
}

/// Among inputs in document order the last of a name settles the field of
/// that name: where two inputs have the same name, the later one wins.
pub proof fn lemma_last_input_wins(
    inputs: Seq<(Seq<char>, Seq<char>)>,
    at: int,
    default: Seq<char>,
)
    requires
        0 <= at < inputs.len(),
        forall|k: int| at < k < inputs.len() ==> (#[trigger] inputs[k]).0 != inputs[at].0,
    ensures
        field_value(inputs, inputs[at].0, default) == inputs[at].1,
    decreases inputs.len(),
{
    if at < inputs.len() - 1 {
        assert(inputs.last() == inputs[inputs.len() - 1]);
        assert forall|k: int| at < k < inputs.drop_last().len() implies (
        #[trigger] inputs.drop_last()[k]).0 != inputs.drop_last()[at].0 by {
            assert(inputs.drop_last()[k] == inputs[k]);
        }
        lemma_last_input_wins(inputs.drop_last(), at, default);
    }
}

/// The scan of a page from any position up to a written tag arrives at the
/// tag, and the tag settles its field.
proof fn lemma_scan_reaches_tag(
    html: Seq<char>,
    from: int,
    at: int,
    attrs: Seq<WrittenAttribute>,
    name: Seq<char>,
    value: Seq<char>,
    default: Seq<char>,
)
    requires
        0 <= from <= at,
        occurs_at(html, input_tag(attrs), at),
        closed_before(html, at),
        all_writable(attrs),
        written_field(attrs) == Some((name, value)),
        unnamed_from(html, at + input_tag(attrs).len(), name),
    ensures
        field_value(hidden_inputs(html, from), name, default) == value,
    decreases at - from,
{
    reveal_strlit("<input");
    let tag = input_tag(attrs);
    let end = at + tag.len();
    lemma_written_tag_is_read(attrs);
    assert(html.subrange(at, at + 6) =~= tag.subrange(0, 6)) by {
        assert forall|i: int| 0 <= i < 6 implies html.subrange(at, at + 6)[i] == tag.subrange(
            0,
            6,
        )[i] by {
            assert(html.subrange(at, end)[i] == html[at + i]);
        }
    }
    assert(occurs_at(html, "<input"@, at));
    lemma_index_of(html, "<input"@, from);
    let start = index_of(html, "<input"@, from)->0;
    assert(index_of(html, "<input"@, from) is Some);
    assert(start <= at);
    let close = index_of_char(html, '>', start + 6);
    lemma_index_of_char(html, '>', start + 6);
    if start < at {
        assert(close < at);
        assert(next_input_tag(html, from) == Some((start, close + 1)));
        let rest = hidden_inputs(html, close + 1);
        match hidden_field(html.subrange(start, close + 1)) {
            Some(field) => {
                assert(hidden_inputs(html, from) == seq![field] + rest);
                lemma_field_value_concat(seq![field], rest, name, default);
                lemma_scan_reaches_tag(
                    html,
                    close + 1,
                    at,
                    attrs,
                    name,
                    value,
                    field_value(seq![field], name, default),
                );
            },
            None => {
                assert(hidden_inputs(html, from) == rest);
                lemma_scan_reaches_tag(html, close + 1, at, attrs, name, value, default);
            },
        }
    } else {
        lemma_index_of_char(tag, '>', 6);
        assert forall|i: int| 0 <= i < tag.len() implies html[at + i] == tag[i] by {
            assert(html.subrange(at, end)[i] == html[at + i]);
        }
        assert forall|i: int| at + 6 <= i < end - 1 implies #[trigger] html[i] != '>' by {
            assert(html[at + (i - at)] == tag[i - at]);
        }
        assert(html[at + (tag.len() - 1)] == tag[tag.len() - 1]);
        lemma_index_of_char_is(html, '>', at + 6, end - 1);
        assert(next_input_tag(html, from) == Some((at, end)));
        let rest = hidden_inputs(html, end);
        assert(hidden_field(html.subrange(at, end)) == Some((name, value)));
        assert(hidden_inputs(html, from) == seq![(name, value)] + rest);
        lemma_field_value_concat(seq![(name, value)], rest, name, default);
        lemma_other_names_keep_default(rest, name, field_value(seq![(name, value)], name, default));
        assert(seq![(name, value)].last() == (name, value));
    }
}

/// The last hidden input of a name settles the field of that name,
/// whatever stands before it.
///
/// The input stands at `at`, written as `<input`, its attributes in any
/// order, each behind a space and with either kind of quotes, and `>`. Of
/// the page only this is asked: what begins as `<input` before the tag is
/// closed before it, and no hidden input behind the tag has the same name.
/// In particular, of two hidden inputs with one name the later one wins.
pub proof fn lemma_last_hidden_input_settles_field(
    html: Seq<char>,
    at: int,
    attrs: Seq<WrittenAttribute>,
    name: Seq<char>,
    value: Seq<char>,
    default: Seq<char>,
)
    requires
        occurs_at(html, input_tag(attrs), at),
        closed_before(html, at),
        all_writable(attrs),
        written_field(attrs) == Some((name, value)),
        unnamed_from(html, at + input_tag(attrs).len(), name),
    ensures
        field_value(hidden_inputs(html, 0), name, default) == value,
{
    lemma_scan_reaches_tag(html, 0, at, attrs, name, value, default);
}

/// A page that holds a hidden input `execution` with the value `value`
/// gives `execution` that value, whatever the order of the attributes of
/// the input and whichever quotes they use.
///
/// The input is the last hidden input of the page that is called
/// `execution`, what begins as `<input` before it is closed before it, and
/// `value` holds neither `>` nor the quote that it is written in.
pub proof fn lemma_hidden_execution_is_read(
    html: Seq<char>,
    at: int,
    attrs: Seq<WrittenAttribute>,
    value: Seq<char>,
)
    requires
        occurs_at(html, input_tag(attrs), at),
        closed_before(html, at),
        all_writable(attrs),
        written_field(attrs) == Some(("execution"@, value)),
        unnamed_from(html, at + input_tag(attrs).len(), "execution"@),
    ensures
        hidden_fields(html).execution == value,
{
    lemma_scan_reaches_tag(html, 0, at, attrs, "execution"@, value, ""@);
}

} // verus!
