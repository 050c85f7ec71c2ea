//! The parts of a line of the OPL (object per line) format: escaped strings,
//! tags, way nodes and relation members.
use vstd::prelude::*;
use vstd::string::StringExecFns;
use crate::ObjId;
use crate::objects::{set_tag_in, spec_set_tag, tag_views, TagView};
use crate::text::{
    char_from_u32, decimal_text, decimal_value, format_i64, hex_value, is_scalar_value, parse_hex,
    parse_i64, push_char,
};

verus! {

/// The error of a string that cannot be unescaped.
#[derive(Debug, Clone, Copy, PartialEq, Eq, Structural)]
pub struct DecodeStringError;

/// How one character is written: the five characters that separate the
/// parts of a line are written as their code point in capital hexadecimal
/// digits between percent signs, every other character as itself.
pub open spec fn spec_encode_char(c: char) -> Seq<char> {
    if c == ' ' {
        "%20%"@
    } else if c == '\n' {
        "%A%"@
    } else if c == ',' {
        "%2C%"@
    } else if c == '=' {
        "%3D%"@
    } else if c == '@' {
        "%40%"@
    } else {
        seq![c]
    }
}

/// The escaped form of a text: that of its characters, one after the other.
pub open spec fn spec_encode_string(s: Seq<char>) -> Seq<char>
    decreases s.len(),
{
    if s.len() == 0 {
        Seq::empty()
    } else {
        spec_encode_string(s.drop_last()) + spec_encode_char(s.last())
    }
}

/// Escapes a string for the OPL format.
pub fn encode_string(s: &str) -> (r: String)
    ensures
        r@ == spec_encode_string(s@),
{
    let mut result: String = String::new();
    let n: usize = s.unicode_len();
    let mut i: usize = 0;
    assert(s@.take(0) =~= Seq::<char>::empty());
    while i < n
        invariant
            i <= n,
            n == s@.len(),
            result@ == spec_encode_string(s@.take(i as int)),
        decreases n - i,
    {
        assert(s@.take(i + 1).drop_last() =~= s@.take(i as int));
        assert(s@.take(i + 1).last() == s@[i as int]);
        let c: char = s.get_char(i);
        if c == ' ' {
            result.append("%20%");
        } else if c == '\n' {
            result.append("%A%");
        } else if c == ',' {
            result.append("%2C%");
        } else if c == '=' {
            result.append("%3D%");
        } else if c == '@' {
            result.append("%40%");
        } else {
            let ghost before = result@;
            push_char(&mut result, c);
            assert(result@ =~= before + seq![c]);
        }
        i += 1;
    }
    assert(s@.take(i as int) =~= s@);
    result
}

/// The character that the digits of an escape stand for.
pub open spec fn spec_escape(digits: Seq<char>) -> Option<char> {
    match hex_value(digits) {
        None => None,
        Some(code) => if is_scalar_value(code) {
            Some(code as char)
        } else {
            None
        },
    }
}

/// What is known of a string after a prefix of it was unescaped: the text so
/// far, and the digits of an escape that is still open.
pub struct Unescaping {
    pub output: Seq<char>,
    pub escape: Option<Seq<char>>,
}

/// The unescaping of a text, read from the left. A percent sign opens an
/// escape and the next one closes it; what stands between them is a code
/// point in hexadecimal digits. `None` where an escape stands for no
/// character.
pub open spec fn spec_unescaping(s: Seq<char>) -> Option<Unescaping>
    decreases s.len(),
{
    if s.len() == 0 {
        Some(Unescaping { output: Seq::empty(), escape: None })
    } else {
        match spec_unescaping(s.drop_last()) {
            None => None,
            Some(state) => match state.escape {
                Some(digits) => if s.last() == '%' {
                    match spec_escape(digits) {
                        Some(c) => Some(Unescaping { output: state.output.push(c), escape: None }),
                        None => None,
                    }
                } else {
                    Some(Unescaping { output: state.output, escape: Some(digits.push(s.last())) })
                },
                None => if s.last() == '%' {
                    Some(Unescaping { output: state.output, escape: Some(Seq::empty()) })
                } else {
                    Some(Unescaping { output: state.output.push(s.last()), escape: None })
                },
            },
        }
    }
}

/// The text that an escaped string stands for. An escape that is still open
/// at the end of the string is left out.
pub open spec fn spec_decode_string(s: Seq<char>) -> Option<Seq<char>> {
    match spec_unescaping(s) {
        Some(state) => Some(state.output),
        None => None,
    }
}

proof fn lemma_unescaping_fails(s: Seq<char>, n: int)
    requires
        0 <= n <= s.len(),
        spec_unescaping(s.take(n)) is None,
    ensures
        spec_unescaping(s) is None,
    decreases s.len() - n,
{
    if n < s.len() {
        assert(s.take(n + 1).drop_last() =~= s.take(n));
        lemma_unescaping_fails(s, n + 1);
    } else {
        assert(s.take(n) =~= s);
    }
}

/// The character of a closed escape, given what its digits were read as.
pub fn escaped_char(code: Option<u32>) -> (r: Option<char>)
    ensures
        r == (match code {
            None => None,
            Some(code) => if is_scalar_value(code) {
                Some(code as char)
            } else {
                None
            },
        }),
{
    match code {
        None => None,
        Some(code) => char_from_u32(code),
    }
}

/// Unescapes a string of the OPL format.
pub fn decode_string(s: &str) -> (r: Result<String, DecodeStringError>)
    ensures
        match r {
            Ok(text) => spec_decode_string(s@) == Some(text@),
            Err(_) => spec_decode_string(s@) is None,
        },
{
    let mut buffer: String = String::new();
    let mut output: String = String::new();
    let mut looking_for_percent: bool = false;
    let n: usize = s.unicode_len();
    let mut i: usize = 0;
    assert(s@.take(0) =~= Seq::<char>::empty());
    while i < n
        invariant
            i <= n,
            n == s@.len(),
            spec_unescaping(s@.take(i as int)) == Some(
                Unescaping {
                    output: output@,
                    escape: if looking_for_percent {
                        Some(buffer@)
                    } else {
                        None
                    },
                },
            ),
        decreases n - i,
    {
        assert(s@.take(i + 1).drop_last() =~= s@.take(i as int));
        assert(s@.take(i + 1).last() == s@[i as int]);
        let c: char = s.get_char(i);
        if looking_for_percent {
            if c == '%' {
                looking_for_percent = false;
                match escaped_char(parse_hex(buffer.as_str())) {
                    Some(new_char) => {
                        push_char(&mut output, new_char);
                    },
                    None => {
                        proof {
                            lemma_unescaping_fails(s@, i + 1);
                        }
                        return Err(DecodeStringError);
                    },
                }
                buffer = String::new();
            } else {
                push_char(&mut buffer, c);
            }
        } else {
            if c == '%' {
                looking_for_percent = true;
                buffer = String::new();
            } else {
                push_char(&mut output, c);
            }
        }
        i += 1;
    }
    assert(s@.take(i as int) =~= s@);
    Ok(output)
}

/// The pieces of a text between the occurrences of a separator. A text
/// without the separator is one piece; the empty text is one empty piece.
pub open spec fn spec_split(s: Seq<char>, sep: char) -> Seq<Seq<char>>
    decreases s.len(),
{
    if s.len() == 0 {
        seq![Seq::empty()]
    } else {
        let earlier = spec_split(s.drop_last(), sep);
        if s.last() == sep {
            earlier.push(Seq::empty())
        } else {
            earlier.drop_last().push(earlier.last().push(s.last()))
        }
    }
}

/// A text has at least one piece.
pub proof fn lemma_split_has_a_piece(s: Seq<char>, sep: char)
    ensures
        spec_split(s, sep).len() >= 1,
    decreases s.len(),
{
    if s.len() > 0 {
        lemma_split_has_a_piece(s.drop_last(), sep);
    }
}

/// The texts of a list of strings.
pub open spec fn texts(strings: Seq<String>) -> Seq<Seq<char>> {
    Seq::new(strings.len(), |i: int| strings[i]@)
}

/// Splits a text at every occurrence of a separator.
pub fn split(s: &str, sep: char) -> (r: Vec<String>)
    ensures
        texts(r@) == spec_split(s@, sep),
        r@.len() >= 1,
{
    let mut pieces: Vec<String> = Vec::new();
    let mut current: String = String::new();
    let n: usize = s.unicode_len();
    let mut i: usize = 0;
    assert(s@.take(0) =~= Seq::<char>::empty());
    assert(texts(pieces@).push(current@) =~= seq![Seq::<char>::empty()]);
    while i < n
        invariant
            i <= n,
            n == s@.len(),
            spec_split(s@.take(i as int), sep) == texts(pieces@).push(current@),
        decreases n - i,
    {
        assert(s@.take(i + 1).drop_last() =~= s@.take(i as int));
        assert(s@.take(i + 1).last() == s@[i as int]);
        let ghost before = texts(pieces@);
        let ghost open = current@;
        assert(before.push(open).drop_last() =~= before);
        let c: char = s.get_char(i);
        if c == sep {
            pieces.push(current);
            current = String::new();
            assert(texts(pieces@) =~= before.push(open));
        } else {
            push_char(&mut current, c);
        }
        i += 1;
    }
    assert(s@.take(i as int) =~= s@);
    let ghost before = texts(pieces@);
    let ghost open = current@;
    pieces.push(current);
    assert(texts(pieces@) =~= before.push(open));
    pieces
}

/// The position of the first occurrence of a character in a text.
pub open spec fn spec_find(s: Seq<char>, c: char) -> Option<int>
    decreases s.len(),
{
    if s.len() == 0 {
        None
    } else {
        match spec_find(s.drop_last(), c) {
            Some(i) => Some(i),
            None => if s.last() == c {
                Some(s.len() - 1)
            } else {
                None
            },
        }
    }
}

/// Where `spec_find` finds a character it stands, and nowhere before.
pub proof fn lemma_find(s: Seq<char>, c: char)
    ensures
        match spec_find(s, c) {
            Some(i) => 0 <= i < s.len() && s[i] == c && forall|j: int| 0 <= j < i ==> s[j] != c,
            None => forall|j: int| 0 <= j < s.len() ==> s[j] != c,
        },
    decreases s.len(),
{
    if s.len() > 0 {
        lemma_find(s.drop_last(), c);
        assert forall|j: int| 0 <= j < s.len() - 1 implies s.drop_last()[j] == s[j] by {}
    }
}

proof fn lemma_find_found(s: Seq<char>, c: char, n: int)
    requires
        0 <= n <= s.len(),
        spec_find(s.take(n), c) is Some,
    ensures
        spec_find(s, c) == spec_find(s.take(n), c),
    decreases s.len() - n,
{
    if n < s.len() {
        assert(s.take(n + 1).drop_last() =~= s.take(n));
        lemma_find_found(s, c, n + 1);
    } else {
        assert(s.take(n) =~= s);
    }
}

/// The two parts of a text around the first occurrence of a separator, or
/// `None` where the separator does not occur.
pub open spec fn spec_split_once(s: Seq<char>, sep: char) -> Option<(Seq<char>, Seq<char>)> {
    match spec_find(s, sep) {
        Some(i) => Some((s.subrange(0, i), s.subrange(i + 1, s.len() as int))),
        None => None,
    }
}

/// Splits a text at the first occurrence of a separator.
pub fn split_once<'a>(s: &'a str, sep: char) -> (r: Option<(&'a str, &'a str)>)
    ensures
        match r {
            Some((before, after)) => spec_split_once(s@, sep) == Some((before@, after@)),
            None => spec_split_once(s@, sep) is None,
        },
{
    let n: usize = s.unicode_len();
    let mut i: usize = 0;
    assert(s@.take(0) =~= Seq::<char>::empty());
    while i < n
        invariant
            i <= n,
            n == s@.len(),
            spec_find(s@.take(i as int), sep) is None,
        decreases n - i,
    {
        assert(s@.take(i + 1).drop_last() =~= s@.take(i as int));
        assert(s@.take(i + 1).last() == s@[i as int]);
        if s.get_char(i) == sep {
            proof {
                lemma_find_found(s@, sep, i + 1);
            }
            return Some((s.substring_char(0, i), s.substring_char(i + 1, n)));
        }
        i += 1;
    }
    assert(s@.take(i as int) =~= s@);
    None
}

/// The first character of an item and the rest of it. An item that is empty
/// or begins with a character outside ASCII has no such parts.
pub open spec fn spec_split_key_value(s: Seq<char>) -> Option<(Seq<char>, Seq<char>)> {
    if s.len() > 0 && (s[0] as u32) < 128 {
        Some((s.subrange(0, 1), s.subrange(1, s.len() as int)))
    } else {
        None
    }
}

/// Splits an item of a line into its first character, which says what the
/// item is, and the rest.
pub fn split_key_value(s: &str) -> (r: Result<(&str, &str), DecodeStringError>)
    ensures
        match r {
            Ok((key, value)) => spec_split_key_value(s@) == Some((key@, value@)),
            Err(_) => spec_split_key_value(s@) is None,
        },
{
    let n: usize = s.unicode_len();
    if n == 0 {
        return Err(DecodeStringError);
    }
    let first: char = s.get_char(0);
    if first as u32 >= 128 {
        // the line is cut at the first byte, which must be a whole character
        return Err(DecodeStringError);
    }
    Ok((s.substring_char(0, 1), s.substring_char(1, n)))
}

/// The node id that one item of a list of way nodes stands for: the item
/// without its first character, read as a number.
pub open spec fn spec_way_node(item: Seq<char>) -> Option<ObjId> {
    if item.len() == 0 {
        decimal_value(item)
    } else {
        decimal_value(item.subrange(1, item.len() as int))
    }
}

/// The node ids of the first `n` items, or `None` where one is no number.
pub open spec fn spec_way_nodes(items: Seq<Seq<char>>, n: nat) -> Option<Seq<ObjId>>
    decreases n,
{
    if n == 0 {
        Some(Seq::empty())
    } else {
        match spec_way_nodes(items, (n - 1) as nat) {
            None => None,
            Some(earlier) => match spec_way_node(items[n - 1]) {
                None => None,
                Some(id) => Some(earlier.push(id)),
            },
        }
    }
}

proof fn lemma_way_nodes_fail(items: Seq<Seq<char>>, m: nat, n: nat)
    requires
        m <= n,
        spec_way_nodes(items, m) is None,
    ensures
        spec_way_nodes(items, n) is None,
    decreases n - m,
{
    if m < n {
        lemma_way_nodes_fail(items, m, (n - 1) as nat);
    }
}

/// The node ids of a way, as a line lists them: items separated by commas,
/// each a letter and a number.
pub open spec fn spec_decode_way_nodes(line: Seq<char>) -> Option<Seq<ObjId>> {
    spec_way_nodes(spec_split(line, ','), spec_split(line, ',').len())
}

/// Reads the node ids of a way from a line.
pub fn decode_way_nodes(line: &str) -> (r: Result<Vec<ObjId>, DecodeStringError>)
    ensures
        match r {
            Ok(nodes) => spec_decode_way_nodes(line@) == Some(nodes@),
            Err(_) => spec_decode_way_nodes(line@) is None,
        },
{
    let items = split(line, ',');
    let mut result: Vec<ObjId> = Vec::new();
    let mut i: usize = 0;
    while i < items.len()
        invariant
            i <= items.len(),
            texts(items@) == spec_split(line@, ','),
            spec_way_nodes(texts(items@), i as nat) == Some(result@),
        decreases items.len() - i,
    {
        let item: &str = items[i].as_str();
        let n: usize = item.unicode_len();
        let number: &str = if n == 0 {
            item
        } else {
            item.substring_char(1, n)
        };
        match parse_i64(number) {
            Some(node_id) => {
                result.push(node_id);
            },
            None => {
                proof {
                    lemma_way_nodes_fail(texts(items@), (i + 1) as nat, items@.len());
                }
                return Err(DecodeStringError);
            },
        }
        i += 1;
    }
    Ok(result)
}

/// The first `n` node ids as a line lists them: each as the letter `n` and
/// its number, with commas between them.
pub open spec fn spec_encode_way_nodes(nodes: Seq<ObjId>, n: nat) -> Seq<char>
    decreases n,
{
    if n == 0 {
        Seq::empty()
    } else if n == 1 {
        seq!['n'] + decimal_text(nodes[0])
    } else {
        spec_encode_way_nodes(nodes, (n - 1) as nat) + seq![','] + seq!['n'] + decimal_text(
            nodes[n - 1],
        )
    }
}

/// Writes the node ids of a way for a line.
pub fn encode_way_nodes(nodes: &Vec<ObjId>) -> (r: String)
    ensures
        r@ == spec_encode_way_nodes(nodes@, nodes@.len()),
{
    let mut result: String = String::new();
    let mut i: usize = 0;
    while i < nodes.len()
        invariant
            i <= nodes.len(),
            result@ == spec_encode_way_nodes(nodes@, i as nat),
        decreases nodes.len() - i,
    {
        let ghost before = result@;
        if i > 0 {
            push_char(&mut result, ',');
        }
        push_char(&mut result, 'n');
        let number = format_i64(nodes[i]);
        result.append(number.as_str());
        proof {
            if i == 0 {
                assert(result@ =~= seq!['n'] + decimal_text(nodes[0]));
            } else {
                assert(result@ =~= before + seq![','] + seq!['n'] + decimal_text(nodes[i as int]));
            }
        }
        i += 1;
    }
    result
}

/// The tag that one item of a list of tags stands for: a key and a value
/// around an equals sign, both unescaped.
pub open spec fn spec_decode_tag(item: Seq<char>) -> Option<TagView> {
    match spec_split_once(item, '=') {
        None => None,
        Some((key, value)) => match spec_decode_string(key) {
            None => None,
            Some(k) => match spec_decode_string(value) {
                None => None,
                Some(v) => Some((k, v)),
            },
        },
    }
}

/// The tags of the first `n` items: each item gives its key its value, so
/// that of two items with one key the second counts. `None` where an item is
/// no tag.
pub open spec fn spec_tags_of(items: Seq<Seq<char>>, n: nat) -> Option<Seq<TagView>>
    decreases n,
{
    if n == 0 {
        Some(Seq::empty())
    } else {
        match spec_tags_of(items, (n - 1) as nat) {
            None => None,
            Some(earlier) => match spec_decode_tag(items[n - 1]) {
                None => None,
                Some(tag) => Some(spec_set_tag(earlier, tag.0, tag.1)),
            },
        }
    }
}

proof fn lemma_tags_of_fail(items: Seq<Seq<char>>, m: nat, n: nat)
    requires
        m <= n,
        spec_tags_of(items, m) is None,
    ensures
        spec_tags_of(items, n) is None,
    decreases n - m,
{
    if m < n {
        lemma_tags_of_fail(items, m, (n - 1) as nat);
    }
}

/// The tags that a line lists: none for the empty text, else items
/// separated by commas.
pub open spec fn spec_decode_tags(line: Seq<char>) -> Option<Seq<TagView>> {
    if line.len() == 0 {
        Some(Seq::empty())
    } else {
        spec_tags_of(spec_split(line, ','), spec_split(line, ',').len())
    }
}

/// Reads the tags of an object from a line.
pub fn decode_tags(line: &str) -> (r: Result<Vec<(String, String)>, DecodeStringError>)
    ensures
        match r {
            Ok(tags) => spec_decode_tags(line@) == Some(tag_views(tags@)),
            Err(_) => spec_decode_tags(line@) is None,
        },
{
    let mut result: Vec<(String, String)> = Vec::new();
    assert(tag_views(result@) =~= Seq::<TagView>::empty());
    if line.unicode_len() == 0 {
        return Ok(result);
    }
    let items = split(line, ',');
    let mut i: usize = 0;
    while i < items.len()
        invariant
            i <= items.len(),
            line@.len() > 0,
            texts(items@) == spec_split(line@, ','),
            spec_tags_of(texts(items@), i as nat) == Some(tag_views(result@)),
        decreases items.len() - i,
    {
        let decoded: Option<(String, String)> = match split_once(items[i].as_str(), '=') {
            None => None,
            Some((key, value)) => match decode_string(key) {
                Err(_) => None,
                Ok(k) => match decode_string(value) {
                    Err(_) => None,
                    Ok(v) => Some((k, v)),
                },
            },
        };
        match decoded {
            Some((k, v)) => {
                set_tag_in(&mut result, k.as_str(), v);
            },
            None => {
                proof {
                    assert(spec_decode_tag(texts(items@)[i as int]) is None);
                    assert(spec_tags_of(texts(items@), (i + 1) as nat) is None);
                    lemma_tags_of_fail(texts(items@), (i + 1) as nat, items@.len());
                }
                return Err(DecodeStringError);
            },
        }
        i += 1;
    }
    Ok(result)
}

/// The first `n` tags as a line lists them: each as its escaped key, an
/// equals sign and its escaped value, with commas between them.
pub open spec fn spec_encode_tags(tags: Seq<TagView>, n: nat) -> Seq<char>
    decreases n,
{
    if n == 0 {
        Seq::empty()
    } else if n == 1 {
        spec_encode_string(tags[0].0) + seq!['='] + spec_encode_string(tags[0].1)
    } else {
        spec_encode_tags(tags, (n - 1) as nat) + seq![','] + spec_encode_string(tags[n - 1].0)
            + seq!['='] + spec_encode_string(tags[n - 1].1)
    }
}

/// Writes the tags of an object for a line, in their order.
pub fn encode_tags(tags: &Vec<(String, String)>) -> (r: String)
    ensures
        r@ == spec_encode_tags(tag_views(tags@), tags@.len()),
{
    let mut result: String = String::new();
    let mut i: usize = 0;
    while i < tags.len()
        invariant
            i <= tags.len(),
            result@ == spec_encode_tags(tag_views(tags@), i as nat),
        decreases tags.len() - i,
    {
        let ghost before = result@;
        let ghost tag = tag_views(tags@)[i as int];
        if i > 0 {
            push_char(&mut result, ',');
        }
        let key = encode_string(tags[i].0.as_str());
        result.append(key.as_str());
        push_char(&mut result, '=');
        let value = encode_string(tags[i].1.as_str());
        result.append(value.as_str());
        proof {
            if i == 0 {
                assert(result@ =~= spec_encode_string(tag.0) + seq!['='] + spec_encode_string(
                    tag.1,
                ));
            } else {
                assert(result@ =~= before + seq![','] + spec_encode_string(tag.0) + seq!['=']
                    + spec_encode_string(tag.1));
            }
        }
        i += 1;
    }
    result
}

/// One member of a relation as a line lists it: the letter of its kind, its
/// id, and its role.
pub type MemberItem = (char, ObjId, Seq<char>);

/// The member that one item of a list of members stands for: a letter, a
/// number, an at sign and the role.
pub open spec fn spec_decode_member(item: Seq<char>) -> Option<MemberItem> {
    match spec_split_key_value(item) {
        None => None,
        Some((kind, rest)) => match spec_split_once(rest, '@') {
            None => None,
            Some((id, role)) => match decimal_value(id) {
                None => None,
                Some(id) => Some((kind[0], id, role)),
            },
        },
    }
}

/// The members of the first `n` items, or `None` where an item is no member.
pub open spec fn spec_members_of(items: Seq<Seq<char>>, n: nat) -> Option<Seq<MemberItem>>
    decreases n,
{
    if n == 0 {
        Some(Seq::empty())
    } else {
        match spec_members_of(items, (n - 1) as nat) {
            None => None,
            Some(earlier) => match spec_decode_member(items[n - 1]) {
                None => None,
                Some(member) => Some(earlier.push(member)),
            },
        }
    }
}

proof fn lemma_members_of_fail(items: Seq<Seq<char>>, m: nat, n: nat)
    requires
        m <= n,
        spec_members_of(items, m) is None,
    ensures
        spec_members_of(items, n) is None,
    decreases n - m,
{
    if m < n {
        lemma_members_of_fail(items, m, (n - 1) as nat);
    }
}

/// The members that a line lists: items separated by commas.
pub open spec fn spec_decode_members(line: Seq<char>) -> Option<Seq<MemberItem>> {
    spec_members_of(spec_split(line, ','), spec_split(line, ',').len())
}

/// The members of a list as they are listed.
pub open spec fn member_items(members: Seq<(char, ObjId, String)>) -> Seq<MemberItem> {
    Seq::new(members.len(), |i: int| (members[i].0, members[i].1, members[i].2@))
}

/// Reads the members of a relation from a line.
pub fn decode_members(line: &str) -> (r: Result<Vec<(char, ObjId, String)>, DecodeStringError>)
    ensures
        match r {
            Ok(members) => spec_decode_members(line@) == Some(member_items(members@)),
            Err(_) => spec_decode_members(line@) is None,
        },
{
    let items = split(line, ',');
    let mut result: Vec<(char, ObjId, String)> = Vec::new();
    let mut i: usize = 0;
    assert(member_items(result@) =~= Seq::<MemberItem>::empty());
    while i < items.len()
        invariant
            i <= items.len(),
            texts(items@) == spec_split(line@, ','),
            spec_members_of(texts(items@), i as nat) == Some(member_items(result@)),
        decreases items.len() - i,
    {
        let decoded: Option<(char, ObjId, String)> = match split_key_value(items[i].as_str()) {
            Err(_) => None,
            Ok((obj_type, rest)) => match split_once(rest, '@') {
                None => None,
                Some((id, role)) => match parse_i64(id) {
                    None => None,
                    Some(id) => Some((obj_type.get_char(0), id, role.to_owned())),
                },
            },
        };
        match decoded {
            Some(member) => {
                let ghost before = member_items(result@);
                let ghost item = (member.0, member.1, member.2@);
                result.push(member);
                assert(member_items(result@) =~= before.push(item));
            },
            None => {
                proof {
                    lemma_members_of_fail(texts(items@), (i + 1) as nat, items@.len());
                }
                return Err(DecodeStringError);
            },
        }
        i += 1;
    }
    Ok(result)
}

/// The first `n` members as a line lists them: each as the letter of its
/// kind, its id, an at sign and its role, with commas between them.
pub open spec fn spec_encode_members(members: Seq<MemberItem>, n: nat) -> Seq<char>
    decreases n,
{
    if n == 0 {
        Seq::empty()
    } else if n == 1 {
        seq![members[0].0] + decimal_text(members[0].1) + seq!['@'] + members[0].2
    } else {
        spec_encode_members(members, (n - 1) as nat) + seq![','] + seq![members[n - 1].0]
            + decimal_text(members[n - 1].1) + seq!['@'] + members[n - 1].2
    }
}

/// Writes the members of a relation for a line.
pub fn encode_members(members: &Vec<(char, ObjId, String)>) -> (r: String)
    ensures
        r@ == spec_encode_members(member_items(members@), members@.len()),
{
    let mut result: String = String::new();
    let mut i: usize = 0;
    while i < members.len()
        invariant
            i <= members.len(),
            result@ == spec_encode_members(member_items(members@), i as nat),
        decreases members.len() - i,
    {
        let ghost before = result@;
        let ghost member = member_items(members@)[i as int];
        if i > 0 {
            push_char(&mut result, ',');
        }
        push_char(&mut result, members[i].0);
        let number = format_i64(members[i].1);
        result.append(number.as_str());
        push_char(&mut result, '@');
        result.append(members[i].2.as_str());
        proof {
            if i == 0 {
                assert(result@ =~= seq![member.0] + decimal_text(member.1) + seq!['@']
                    + member.2);
            } else {
                assert(result@ =~= before + seq![','] + seq![member.0] + decimal_text(member.1)
                    + seq!['@'] + member.2);
            }
        }
        i += 1;
    }
    result
}

} // verus!
