//! The hidden fields of a login form.
//!
//! The page is not parsed as HTML. It is scanned for `<input ... >` tags: a
//! tag begins at `<input` and ends at the next `>`. Inside a tag, attributes
//! of the form `name="value"` or `name='value'` are read from left to right.
//! A tag whose `type` is `hidden` and that has both a `name` and a `value`
//! contributes one field; where a name is given twice, the later tag wins.

use vstd::prelude::*;
use crate::text::{
    chars_of, eq_ignore_ascii_case, find, find_char, first_where, index_of, index_of_char,
    lemma_index_of, occurs_at, same_ignore_ascii_case, same_text, slice_chars, string_of,
};

verus! {

/// The half-open span of one `<input ... >` tag that begins at or after
/// `from`: from the first `<input` to just behind the first `>` that follows
/// it. There is none when `<input` does not occur or is never closed.
pub open spec fn next_input_tag(html: Seq<char>, from: int) -> Option<(int, int)> {
    match index_of(html, "<input"@, from) {
        None => None,
        Some(start) => {
            let close = index_of_char(html, '>', start + "<input"@.len());
            if close < html.len() {
                Some((start, close + 1))
            } else {
                None
            }
        },
    }
}

/// A character that may begin an attribute name.
pub open spec fn is_name_start(c: char) -> bool {
    ('A' <= c <= 'Z') || ('a' <= c <= 'z') || c == '_' || c == ':' || c == '-'
}

/// A character that may continue an attribute name.
pub open spec fn is_name_char(c: char) -> bool {
    is_name_start(c) || ('0' <= c <= '9')
}

/// A character with the Unicode property `White_Space`.
pub open spec fn is_space(c: char) -> bool {
    let u = c as u32;
    ||| 0x09 <= u <= 0x0D
    ||| u == 0x20
    ||| u == 0x85
    ||| u == 0xA0
    ||| u == 0x1680
    ||| 0x2000 <= u <= 0x200A
    ||| u == 0x2028
    ||| u == 0x2029
    ||| u == 0x202F
    ||| u == 0x205F
    ||| u == 0x3000
}

/// The end of the run of name characters that begins at `from`.
pub open spec fn name_end(tag: Seq<char>, from: int) -> int {
    first_where(tag, |c: char| !is_name_char(c), from)
}

/// The end of the run of white space that begins at `from`.
pub open spec fn space_end(tag: Seq<char>, from: int) -> int {
    first_where(tag, |c: char| !is_space(c), from)
}

/// One attribute as it was read from a tag, and the position behind its
/// closing quote.
pub struct Attribute {
    pub name: Seq<char>,
    pub value: Seq<char>,
    pub end: int,
}

/// The attribute that begins exactly at `at`: a name, optional white space,
/// `=`, optional white space, and a value between two `"` or between two `'`.
pub open spec fn attribute_at(tag: Seq<char>, at: int) -> Option<Attribute> {
    if 0 <= at < tag.len() && is_name_start(tag[at]) {
        let name_end = name_end(tag, at + 1);
        let eq = space_end(tag, name_end);
        if eq < tag.len() && tag[eq] == '=' {
            let open = space_end(tag, eq + 1);
            if open < tag.len() && (tag[open] == '"' || tag[open] == '\'') {
                let close = index_of_char(tag, tag[open], open + 1);
                if close < tag.len() {
                    Some(
                        Attribute {
                            name: tag.subrange(at, name_end),
                            value: tag.subrange(open + 1, close),
                            end: close + 1,
                        },
                    )
                } else {
                    None
                }
            } else {
                None
            }
        } else {
            None
        }
    } else {
        None
    }
}

/// The attributes of a tag from position `from` on, each with its name and
/// its value, in the order in which they stand: the leftmost attribute
/// first, then those behind its end.
pub open spec fn attributes(tag: Seq<char>, from: int) -> Seq<(Seq<char>, Seq<char>)>
    decreases tag.len() - from,
{
    if from >= tag.len() {
        Seq::empty()
    } else {
        match attribute_at(tag, from) {
            Some(a) => if a.end > from {
                seq![(a.name, a.value)] + attributes(tag, a.end)
            } else {
                attributes(tag, from + 1)
            },
            None => attributes(tag, from + 1),
        }
    }
}

/// Where the scan of a tag goes on after nothing could be read at `at`:
/// behind the name that begins there, or at the next character.
pub open spec fn resume_after(tag: Seq<char>, at: int) -> int {
    if is_name_start(tag[at]) {
        name_end(tag, at + 1)
    } else {
        at + 1
    }
}

/// What `name_end` returns lies between `from` and the end, every character
/// before it is a name character, and the character at it is none.
pub proof fn lemma_name_end(tag: Seq<char>, from: int)
    requires
        0 <= from <= tag.len(),
    ensures
        from <= name_end(tag, from) <= tag.len(),
        forall|i: int| from <= i < name_end(tag, from) ==> is_name_char(#[trigger] tag[i]),
        name_end(tag, from) < tag.len() ==> !is_name_char(tag[name_end(tag, from)]),
    decreases tag.len() - from,
{
    if from < tag.len() && is_name_char(tag[from]) {
        lemma_name_end(tag, from + 1);
    }
}

/// A run of name characters ends where the first other character stands.
pub proof fn lemma_name_end_is(tag: Seq<char>, from: int, at: int)
    requires
        0 <= from <= at <= tag.len(),
        forall|i: int| from <= i < at ==> is_name_char(#[trigger] tag[i]),
        at < tag.len() ==> !is_name_char(tag[at]),
    ensures
        name_end(tag, from) == at,
    decreases at - from,
{
    if from < at {
        lemma_name_end_is(tag, from + 1, at);
    }
}

/// Inside a name at whose start nothing could be read, nothing can be read
/// either.
proof fn lemma_nothing_inside_name(tag: Seq<char>, at: int, from: int)
    requires
        0 <= at <= from <= name_end(tag, at + 1),
        at < tag.len(),
        is_name_start(tag[at]),
        attribute_at(tag, at) is None,
    ensures
        attributes(tag, from) == attributes(tag, name_end(tag, at + 1)),
    decreases name_end(tag, at + 1) - from,
{
    let end = name_end(tag, at + 1);
    lemma_name_end(tag, at + 1);
    if from < end {
        if is_name_start(tag[from]) {
            assert forall|i: int| from + 1 <= i < end implies is_name_char(#[trigger] tag[i]) by {}
            lemma_name_end_is(tag, from + 1, end);
            assert(attribute_at(tag, from) is None);
        }
        assert(attributes(tag, from) == attributes(tag, from + 1));
        lemma_nothing_inside_name(tag, at, from + 1);
    }
}

/// Where nothing could be read at `at`, the attributes from `at` on are
/// those from `resume_after` on: no attribute begins inside a name at whose
/// start none begins.
pub proof fn lemma_scan_resumes(tag: Seq<char>, at: int)
    requires
        0 <= at < tag.len(),
        attribute_at(tag, at) is None,
    ensures
        at < resume_after(tag, at) <= tag.len(),
        attributes(tag, at) == attributes(tag, resume_after(tag, at)),
{
    if is_name_start(tag[at]) {
        lemma_name_end(tag, at + 1);
        lemma_nothing_inside_name(tag, at, at);
    }
}

/// The value of the last attribute whose name is `key` without regard to
/// ASCII case.
pub open spec fn last_value(attrs: Seq<(Seq<char>, Seq<char>)>, key: Seq<char>) -> Option<
    Seq<char>,
>
    decreases attrs.len(),
{
    if attrs.len() == 0 {
        None
    } else if eq_ignore_ascii_case(attrs.last().0, key) {
        Some(attrs.last().1)
    } else {
        last_value(attrs.drop_last(), key)
    }
}

/// The field that a tag contributes: the values of its `name` and `value`
/// attributes, provided that both are there and that its `type` is `hidden`
/// without regard to ASCII case.
pub open spec fn hidden_field(tag: Seq<char>) -> Option<(Seq<char>, Seq<char>)> {
    let attrs = attributes(tag, 0);
    match (last_value(attrs, "type"@), last_value(attrs, "name"@), last_value(attrs, "value"@)) {
        (Some(kind), Some(name), Some(value)) => if eq_ignore_ascii_case(kind, "hidden"@) {
            Some((name, value))
        } else {
            None
        },
        _ => None,
    }
}

/// The fields of the hidden input tags that begin at or after `from`, in
/// document order.
pub open spec fn hidden_inputs(html: Seq<char>, from: int) -> Seq<(Seq<char>, Seq<char>)>
    decreases html.len() - from,
{
    match next_input_tag(html, from) {
        Some((start, end)) => if from < end {
            match hidden_field(html.subrange(start, end)) {
                Some(field) => seq![field] + hidden_inputs(html, end),
                None => hidden_inputs(html, end),
            }
        } else {
            Seq::empty()
        },
        None => Seq::empty(),
    }
}

/// The value of the last field called `name`, or `default` when there is none.
pub open spec fn field_value(
    fields: Seq<(Seq<char>, Seq<char>)>,
    name: Seq<char>,
    default: Seq<char>,
) -> Seq<char>
    decreases fields.len(),
{
    if fields.len() == 0 {
        default
    } else if fields.last().0 == name {
        fields.last().1
    } else {
        field_value(fields.drop_last(), name, default)
    }
}

/// The five fields of the login form as texts.
pub struct HiddenFields {
    pub execution: Seq<char>,
    pub current_menu: Seq<char>,
    pub fail_n: Seq<char>,
    pub geolocation: Seq<char>,
    pub fp_visitor_id: Seq<char>,
}

/// The five fields that a sequence of hidden inputs settles. A field that no
/// input names keeps its default: `1` for `currentMenu`, `0` for `failN`, the
/// empty text for the others.
pub open spec fn fields_of(inputs: Seq<(Seq<char>, Seq<char>)>) -> HiddenFields {
    HiddenFields {
        execution: field_value(inputs, "execution"@, ""@),
        current_menu: field_value(inputs, "currentMenu"@, "1"@),
        fail_n: field_value(inputs, "failN"@, "0"@),
        geolocation: field_value(inputs, "geolocation"@, ""@),
        fp_visitor_id: field_value(inputs, "fpVisitorId"@, ""@),
    }
}

/// The fields after one more hidden input: the field that the input names
/// takes its value, and an input of any other name changes nothing.
pub open spec fn recorded(fields: HiddenFields, name: Seq<char>, value: Seq<char>) -> HiddenFields {
    if name == "execution"@ {
        HiddenFields { execution: value, ..fields }
    } else if name == "currentMenu"@ {
        HiddenFields { current_menu: value, ..fields }
    } else if name == "failN"@ {
        HiddenFields { fail_n: value, ..fields }
    } else if name == "geolocation"@ {
        HiddenFields { geolocation: value, ..fields }
    } else if name == "fpVisitorId"@ {
        HiddenFields { fp_visitor_id: value, ..fields }
    } else {
        fields
    }
}

/// Recording the inputs one by one settles the same fields as looking for
/// the last input of each name.
pub proof fn lemma_fields_of_push(
    inputs: Seq<(Seq<char>, Seq<char>)>,
    name: Seq<char>,
    value: Seq<char>,
)
    ensures
        fields_of(inputs.push((name, value))) == recorded(fields_of(inputs), name, value),
{
    reveal_strlit("execution");
    reveal_strlit("currentMenu");
    reveal_strlit("failN");
    reveal_strlit("geolocation");
    reveal_strlit("fpVisitorId");
    let next = inputs.push((name, value));
    assert(next.drop_last() =~= inputs);
    assert(next.last() == (name, value));
    assert("execution"@.len() == 9 && "failN"@.len() == 5);
    assert("currentMenu"@[0] == 'c' && "geolocation"@[0] == 'g' && "fpVisitorId"@[0] == 'f');
}

/// The five fields of a page.
pub open spec fn hidden_fields(html: Seq<char>) -> HiddenFields {
    fields_of(hidden_inputs(html, 0))
}

/// The hidden fields that the login form needs.
#[derive(Clone, Debug)]
pub struct HiddenFieldSet {
    pub execution: String,
    pub current_menu: String,
    pub fail_n: String,
    pub geolocation: String,
    pub fp_visitor_id: String,
}

impl View for HiddenFieldSet {
    type V = HiddenFields;

    open spec fn view(&self) -> HiddenFields {
        HiddenFields {
            execution: self.execution@,
            current_menu: self.current_menu@,
            fail_n: self.fail_n@,
            geolocation: self.geolocation@,
            fp_visitor_id: self.fp_visitor_id@,
        }
    }
}

impl HiddenFieldSet {
    /// The fields of a page without hidden inputs.
    pub fn new() -> (r: HiddenFieldSet)
        ensures
            r@ == fields_of(Seq::empty()),
    {
        HiddenFieldSet {
            execution: "".to_owned(),
            current_menu: "1".to_owned(),
            fail_n: "0".to_owned(),
            geolocation: "".to_owned(),
            fp_visitor_id: "".to_owned(),
        }
    }

    /// Records one hidden input. A name that is none of the five is ignored.
    pub fn record(&mut self, name: &[char], value: String)
        ensures
            final(self)@ == recorded(old(self)@, name@, value@),
    {
        let execution = chars_of("execution");
        let current_menu = chars_of("currentMenu");
        let fail_n = chars_of("failN");
        let geolocation = chars_of("geolocation");
        let fp_visitor_id = chars_of("fpVisitorId");
        if same_text(name, execution.as_slice()) {
            self.execution = value;
        } else if same_text(name, current_menu.as_slice()) {
            self.current_menu = value;
        } else if same_text(name, fail_n.as_slice()) {
            self.fail_n = value;
        } else if same_text(name, geolocation.as_slice()) {
            self.geolocation = value;
        } else if same_text(name, fp_visitor_id.as_slice()) {
            self.fp_visitor_id = value;
        }
    }
}

/// Where an attribute stands in a tag: its name, its value, and the position
/// behind its closing quote.
#[derive(Clone, Copy, Debug)]
pub struct AttributeSpan {
    pub name_start: usize,
    pub name_end: usize,
    pub value_start: usize,
    pub value_end: usize,
    pub end: usize,
}

impl AttributeSpan {
    /// The attribute that the span cuts out of `tag`.
    pub open spec fn of(self, tag: Seq<char>) -> Attribute {
        Attribute {
            name: tag.subrange(self.name_start as int, self.name_end as int),
            value: tag.subrange(self.value_start as int, self.value_end as int),
            end: self.end as int,
        }
    }

    /// The span lies inside a text of `len` characters, in order.
    pub open spec fn fits(self, len: nat) -> bool {
        self.name_start < self.name_end <= self.value_start <= self.value_end < self.end <= len
    }
}

/// Tells whether `c` may begin an attribute name.
pub fn name_start(c: char) -> (r: bool)
    ensures
        r == is_name_start(c),
{
    ('A' <= c && c <= 'Z') || ('a' <= c && c <= 'z') || c == '_' || c == ':' || c == '-'
}

/// Tells whether `c` may continue an attribute name.
pub fn name_char(c: char) -> (r: bool)
    ensures
        r == is_name_char(c),
{
    name_start(c) || ('0' <= c && c <= '9')
}

/// Tells whether `c` is white space.
pub fn space(c: char) -> (r: bool)
    ensures
        r == is_space(c),
{
    let u: u32 = c as u32;
    (0x09 <= u && u <= 0x0D) || u == 0x20 || u == 0x85 || u == 0xA0 || u == 0x1680 || (0x2000 <= u
        && u <= 0x200A) || u == 0x2028 || u == 0x2029 || u == 0x202F || u == 0x205F || u == 0x3000
}

/// The end of the run of name characters that begins at `from`.
fn skip_name(tag: &[char], from: usize) -> (r: usize)
    requires
        from <= tag@.len(),
    ensures
        r == name_end(tag@, from as int),
        from <= r <= tag@.len(),
{
    let mut i: usize = from;
    while i < tag.len() && name_char(tag[i])
        invariant
            from <= i <= tag@.len(),
            name_end(tag@, from as int) == name_end(tag@, i as int),
        decreases tag@.len() - i,
    {
        i += 1;
    }
    i
}

/// The end of the run of white space that begins at `from`.
fn skip_space(tag: &[char], from: usize) -> (r: usize)
    requires
        from <= tag@.len(),
    ensures
        r == space_end(tag@, from as int),
        from <= r <= tag@.len(),
{
    let mut i: usize = from;
    while i < tag.len() && space(tag[i])
        invariant
            from <= i <= tag@.len(),
            space_end(tag@, from as int) == space_end(tag@, i as int),
        decreases tag@.len() - i,
    {
        i += 1;
    }
    i
}

/// Finds the next `<input ... >` tag at or after `from`.
pub fn find_input_tag(html: &[char], from: usize) -> (r: Option<(usize, usize)>)
    requires
        from <= html@.len(),
    ensures
        r is Some == next_input_tag(html@, from as int) is Some,
        r matches Some((start, end)) ==> next_input_tag(html@, from as int) == Some(
            (start as int, end as int),
        ) && from <= start < end <= html@.len(),
{
    let open = chars_of("<input");
    proof {
        reveal_strlit("<input");
        assert("<input"@.len() == 6);
        lemma_index_of(html@, "<input"@, from as int);
    }
    match find(html, open.as_slice(), from) {
        None => None,
        Some(start) => {
            assert(occurs_at(html@, "<input"@, start as int));
            assert(start + 6 <= html.len());
            let close = find_char(html, '>', start + 6);
            if close < html.len() {
                Some((start, close + 1))
            } else {
                None
            }
        },
    }
}

/// Reads the attribute that begins exactly at `at`. Where none does, the
/// result is the position at which the scan goes on.
pub fn read_attribute(tag: &[char], at: usize) -> (r: Result<AttributeSpan, usize>)
    requires
        at < tag@.len(),
    ensures
        match r {
            Ok(span) => attribute_at(tag@, at as int) == Some(span.of(tag@)) && span.fits(
                tag@.len(),
            ) && span.name_start == at,
            Err(next) => attribute_at(tag@, at as int) is None && next == resume_after(
                tag@,
                at as int,
            ),
        },
{
    if !name_start(tag[at]) {
        return Err(at + 1);
    }
    let name_end = skip_name(tag, at + 1);
    let eq = skip_space(tag, name_end);
    if eq >= tag.len() || tag[eq] != '=' {
        return Err(name_end);
    }
    let open = skip_space(tag, eq + 1);
    if open >= tag.len() || !(tag[open] == '"' || tag[open] == '\'') {
        return Err(name_end);
    }
    let close = find_char(tag, tag[open], open + 1);
    if close >= tag.len() {
        return Err(name_end);
    }
    Ok(
        AttributeSpan {
            name_start: at,
            name_end,
            value_start: open + 1,
            value_end: close,
            end: close + 1,
        },
    )
}

/// Where the `name` and the `value` of a hidden input stand in its tag.
#[derive(Clone, Copy, Debug)]
pub struct FieldSpan {
    pub name_start: usize,
    pub name_end: usize,
    pub value_start: usize,
    pub value_end: usize,
}

/// What a scan of a tag remembers of one attribute name: the value of its
/// last occurrence so far.
spec fn remembered(
    seen: Option<(usize, usize)>,
    tag: Seq<char>,
    done: Seq<(Seq<char>, Seq<char>)>,
    key: Seq<char>,
) -> bool {
    match seen {
        Some((a, b)) => a <= b <= tag.len() && last_value(done, key) == Some(
            tag.subrange(a as int, b as int),
        ),
        None => last_value(done, key) is None,
    }
}

/// Reads the attributes of a tag and returns where its field stands, if the
/// tag is a hidden input with a name and a value.
pub fn read_hidden_field(tag: &[char]) -> (r: Option<FieldSpan>)
    ensures
        r is Some == hidden_field(tag@) is Some,
        r matches Some(f) ==> f.name_start <= f.name_end <= tag@.len() && f.value_start
            <= f.value_end <= tag@.len() && hidden_field(tag@) == Some(
            (
                tag@.subrange(f.name_start as int, f.name_end as int),
                tag@.subrange(f.value_start as int, f.value_end as int),
            ),
        ),
{
    let type_key = chars_of("type");
    let name_key = chars_of("name");
    let value_key = chars_of("value");
    let hidden = chars_of("hidden");
    let mut kind: Option<(usize, usize)> = None;
    let mut name: Option<(usize, usize)> = None;
    let mut value: Option<(usize, usize)> = None;
    let ghost mut done: Seq<(Seq<char>, Seq<char>)> = Seq::empty();
    let mut i: usize = 0;
    while i < tag.len()
        invariant
            i <= tag@.len(),
            type_key@ == "type"@,
            name_key@ == "name"@,
            value_key@ == "value"@,
            attributes(tag@, 0) == done + attributes(tag@, i as int),
            remembered(kind, tag@, done, "type"@),
            remembered(name, tag@, done, "name"@),
            remembered(value, tag@, done, "value"@),
        decreases tag@.len() - i,
    {
        match read_attribute(tag, i) {
            Err(next) => {
                proof {
                    lemma_scan_resumes(tag@, i as int);
                }
                i = next;
            },
            Ok(span) => {
                let ghost attr = span.of(tag@);
                let ghost next = done.push((attr.name, attr.value));
                proof {
                    assert(next.drop_last() =~= done);
                    assert(done + (seq![(attr.name, attr.value)] + attributes(tag@, attr.end))
                        =~= next + attributes(tag@, attr.end));
                }
                let key = slice_chars(tag, span.name_start, span.name_end);
                if same_ignore_ascii_case(key.as_slice(), type_key.as_slice()) {
                    kind = Some((span.value_start, span.value_end));
                }
                if same_ignore_ascii_case(key.as_slice(), name_key.as_slice()) {
                    name = Some((span.value_start, span.value_end));
                }
                if same_ignore_ascii_case(key.as_slice(), value_key.as_slice()) {
                    value = Some((span.value_start, span.value_end));
                }
                proof {
                    done = next;
                }
                i = span.end;
            },
        }
    }
    assert(done =~= attributes(tag@, 0));
    match (kind, name, value) {
        (Some(k), Some(n), Some(v)) => {
            let word = slice_chars(tag, k.0, k.1);
            if same_ignore_ascii_case(word.as_slice(), hidden.as_slice()) {
                Some(FieldSpan { name_start: n.0, name_end: n.1, value_start: v.0, value_end: v.1 })
            } else {
                None
            }
        },
        _ => None,
    }
}

/// Extracts the hidden fields of the login form from a page.
///
/// The result is settled by the hidden input tags of the page in document
/// order: the last tag that names a field gives its value, and a field that
/// no tag names keeps its default.
pub fn extract_hidden_fields(html: &str) -> (r: HiddenFieldSet)
    ensures
        r@ == hidden_fields(html@),
{
    let chars = chars_of(html);
    let mut fields = HiddenFieldSet::new();
    let ghost mut done: Seq<(Seq<char>, Seq<char>)> = Seq::empty();
    let mut pos: usize = 0;
    loop
        invariant
            pos <= chars@.len(),
            chars@ == html@,
            hidden_inputs(html@, 0) == done + hidden_inputs(html@, pos as int),
            fields@ == fields_of(done),
        ensures
            fields@ == hidden_fields(html@),
        decreases chars@.len() - pos,
    {
        match find_input_tag(chars.as_slice(), pos) {
            None => {
                assert(done =~= hidden_inputs(html@, 0));
                break ;
            },
            Some((start, end)) => {
                let tag = slice_chars(chars.as_slice(), start, end);
                match read_hidden_field(tag.as_slice()) {
                    None => {},
                    Some(f) => {
                        let name = slice_chars(tag.as_slice(), f.name_start, f.name_end);
                        let value = string_of(tag.as_slice(), f.value_start, f.value_end);
                        proof {
                            assert(done + (seq![(name@, value@)] + hidden_inputs(html@, end as int))
                                =~= done.push((name@, value@)) + hidden_inputs(html@, end as int));
                            lemma_fields_of_push(done, name@, value@);
                            done = done.push((name@, value@));
                        }
                        fields.record(name.as_slice(), value);
                    },
                }
                pos = end;
            },
        }
    }
    fields
}

} // verus!
