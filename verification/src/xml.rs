//! A small XML reader for session exports: elements, attributes, text
//! content, the five named character entities, comments and processing
//! instructions.  Whitespace-only text between elements is dropped, as the
//! schema layer never reads it.  Anything outside this subset is a syntax
//! error carrying the character offset of the failure.

use vstd::prelude::*;
use crate::schema::ZdcError;
use crate::strutil::{chars_to_string, str_to_chars};

verus! {

/// One attribute of an element.
#[derive(Debug, PartialEq)]
pub struct XmlAttr {
    pub name: String,
    pub value: String,
}

/// One child of an element: a nested element or a run of text.
#[derive(Debug, PartialEq)]
pub enum XmlNode {
    Element(XmlElement),
    Text(String),
}

/// An element: name, attributes in document order, children in document
/// order.
#[derive(Debug, PartialEq)]
pub struct XmlElement {
    pub name: String,
    pub attrs: Vec<XmlAttr>,
    pub children: Vec<XmlNode>,
}

/// The defensive ceiling on element nesting depth.
pub const MAX_DEPTH: usize = 64;

pub open spec fn spec_is_ws(c: char) -> bool {
    c == ' ' || c == '\t' || c == '\r' || c == '\n'
}

fn is_ws(c: char) -> (r: bool)
    ensures
        r == spec_is_ws(c),
{
    c == ' ' || c == '\t' || c == '\r' || c == '\n'
}

/// Characters accepted in element and attribute names: everything except
/// whitespace and the markup delimiters.
pub open spec fn spec_is_name_char(c: char) -> bool {
    !spec_is_ws(c) && c != '<' && c != '>' && c != '/' && c != '=' && c != '"' && c != '\'' && c
        != '&' && c != ';'
}

fn is_name_char(c: char) -> (r: bool)
    ensures
        r == spec_is_name_char(c),
{
    !is_ws(c) && c != '<' && c != '>' && c != '/' && c != '=' && c != '"' && c != '\'' && c != '&'
        && c != ';'
}

/// Advance past whitespace, to the first non-whitespace character.
fn skip_ws(s: &Vec<char>, i: usize) -> (j: usize)
    requires
        i <= s@.len(),
    ensures
        i <= j <= s@.len(),
        forall|k: int| i <= k < j ==> spec_is_ws(s@[k]),
        j < s@.len() ==> !spec_is_ws(s@[j as int]),
    decreases s@.len() - i,
{
    let mut j = i;
    while j < s.len() && is_ws(s[j])
        invariant
            i <= j <= s@.len(),
            forall|k: int| i <= k < j ==> spec_is_ws(s@[k]),
        decreases s@.len() - j,
    {
        j += 1;
    }
    j
}

/// Advance past name characters, to the first character not in a name.
fn scan_name(s: &Vec<char>, i: usize) -> (j: usize)
    requires
        i <= s@.len(),
    ensures
        i <= j <= s@.len(),
        forall|k: int| i <= k < j ==> spec_is_name_char(s@[k]),
        j < s@.len() ==> !spec_is_name_char(s@[j as int]),
    decreases s@.len() - i,
{
    let mut j = i;
    while j < s.len() && is_name_char(s[j])
        invariant
            i <= j <= s@.len(),
            forall|k: int| i <= k < j ==> spec_is_name_char(s@[k]),
        decreases s@.len() - j,
    {
        j += 1;
    }
    j
}

/// The characters `s[a..b]`, as an owned string.
fn chars_range_to_string(s: &Vec<char>, a: usize, b: usize) -> (r: String)
    requires
        a <= b <= s@.len(),
    ensures
        r@ == s@.subrange(a as int, b as int),
{
    let mut buf: Vec<char> = Vec::new();
    let mut k = a;
    while k < b
        invariant
            a <= k <= b <= s@.len(),
            buf@ =~= s@.subrange(a as int, k as int),
        decreases b - k,
    {
        buf.push(s[k]);
        k += 1;
    }
    proof {
        assert(buf@ =~= s@.subrange(a as int, b as int));
    }
    chars_to_string(&buf)
}

/// Relies on `char::from_u32`: `Some` exactly for a valid Unicode scalar
/// value (not a surrogate, at most 0x10FFFF), and then the character with
/// that value.
#[verifier::external_body]
fn char_from_u32(v: u32) -> (r: Option<char>)
    ensures
        r is Some <==> (v < 0xD800 || (0xE000 <= v && v <= 0x10FFFF)),
        r matches Some(c) ==> c as u32 == v,
{
    char::from_u32(v)
}

/// Decode a numeric character reference: the digits of `&#...;` or
/// `&#x...;`, handed over without the leading `#`.
fn decode_char_ref(digits: &Vec<char>, start: usize, end: usize, hex: bool) -> (r: Option<char>)
    requires
        start <= end <= digits@.len(),
{
    let mut value: u32 = 0;
    let mut k = start;
    if k == end {
        return None;
    }
    while k < end
        invariant
            start <= k <= end <= digits@.len(),
            value <= 0x10FFFF,
        decreases end - k,
    {
        let c = digits[k];
        let d: u32 = if '0' <= c && c <= '9' {
            (c as u32) - ('0' as u32)
        } else if hex && 'a' <= c && c <= 'f' {
            (c as u32) - ('a' as u32) + 10
        } else if hex && 'A' <= c && c <= 'F' {
            (c as u32) - ('A' as u32) + 10
        } else {
            return None;
        };
        value = if hex {
            value * 16 + d
        } else {
            value * 10 + d
        };
        if value > 0x10FFFF {
            return None;
        }
        k += 1;
    }
    char_from_u32(value)
}

/// Decode one character entity starting at the `&` at position `i`.
/// The five named XML entities and numeric character references are
/// recognized.
fn parse_entity(s: &Vec<char>, i: usize) -> (r: Result<(char, usize), ZdcError>)
    requires
        i < s@.len(),
        s@[i as int] == '&',
    ensures
        r matches Ok(p) ==> i < p.1 <= s@.len(),
{
    let len = s.len();
    let mut j = i + 1;
    while j < len && j - i < 9 && s[j] != ';'
        invariant
            i < j <= s@.len(),
            len == s@.len(),
            j <= i + 9,
        decreases s@.len() - j,
    {
        j += 1;
    }
    if j >= len || s[j] != ';' {
        return Err(ZdcError::Syntax(i));
    }
    // The name of the entity stands in s[i+1 .. j].
    let n = j - (i + 1);
    if n >= 2 && s[i + 1] == '#' {
        let hex = s[i + 2] == 'x' || s[i + 2] == 'X';
        let start = if hex {
            i + 3
        } else {
            i + 2
        };
        match decode_char_ref(s, start, j, hex) {
            Some(c) => {
                return Ok((c, j + 1));
            },
            None => {
                return Err(ZdcError::Syntax(i));
            },
        }
    }
    let c: char = if n == 2 && s[i + 1] == 'l' && s[i + 2] == 't' {
        '<'
    } else if n == 2 && s[i + 1] == 'g' && s[i + 2] == 't' {
        '>'
    } else if n == 3 && s[i + 1] == 'a' && s[i + 2] == 'm' && s[i + 3] == 'p' {
        '&'
    } else if n == 4 && s[i + 1] == 'q' && s[i + 2] == 'u' && s[i + 3] == 'o' && s[i + 4] == 't' {
        '"'
    } else if n == 4 && s[i + 1] == 'a' && s[i + 2] == 'p' && s[i + 3] == 'o' && s[i + 4] == 's' {
        '\''
    } else {
        return Err(ZdcError::Syntax(i));
    };
    Ok((c, j + 1))
}

/// Read a quoted attribute value whose opening quote stands at `i`,
/// decoding entities; ends after the closing quote.
fn parse_quoted(s: &Vec<char>, i: usize) -> (r: Result<(String, usize), ZdcError>)
    requires
        i < s@.len(),
        s@[i as int] == '"' || s@[i as int] == '\'',
    ensures
        r matches Ok(p) ==> i < p.1 <= s@.len(),
{
    let len = s.len();
    let q = s[i];
    let mut buf: Vec<char> = Vec::new();
    let mut pos = i + 1;
    while pos < len
        invariant
            i < pos <= s@.len(),
            len == s@.len(),
        decreases s@.len() - pos,
    {
        let c = s[pos];
        if c == q {
            return Ok((chars_to_string(&buf), pos + 1));
        } else if c == '<' {
            return Err(ZdcError::Syntax(pos));
        } else if c == '&' {
            match parse_entity(s, pos) {
                Ok((d, np)) => {
                    buf.push(d);
                    pos = np;
                },
                Err(e) => {
                    return Err(e);
                },
            }
        } else {
            buf.push(c);
            pos += 1;
        }
    }
    Err(ZdcError::Syntax(i))
}

/// Read a run of text starting at `i` (which does not hold `<`), decoding
/// entities, up to the next `<` or the end of input.  Returns the raw
/// characters so that the caller can drop whitespace-only runs.
fn parse_text(s: &Vec<char>, i: usize) -> (r: Result<(Vec<char>, usize), ZdcError>)
    requires
        i < s@.len(),
        s@[i as int] != '<',
    ensures
        r matches Ok(p) ==> i < p.1 <= s@.len(),
{
    let len = s.len();
    let mut buf: Vec<char> = Vec::new();
    let mut pos = i;
    while pos < len
        invariant
            i <= pos <= s@.len(),
            len == s@.len(),
            pos == i ==> s@[i as int] != '<',
        decreases s@.len() - pos,
    {
        let c = s[pos];
        if c == '<' {
            if pos == i {
                return Err(ZdcError::Syntax(pos));
            }
            return Ok((buf, pos));
        } else if c == '&' {
            match parse_entity(s, pos) {
                Ok((d, np)) => {
                    buf.push(d);
                    pos = np;
                },
                Err(e) => {
                    return Err(e);
                },
            }
        } else {
            buf.push(c);
            pos += 1;
        }
    }
    Ok((buf, len))
}

/// Whether the characters are all whitespace.
fn all_ws(v: &Vec<char>) -> (r: bool)
    ensures
        r == (forall|k: int| 0 <= k < v@.len() ==> spec_is_ws(v@[k])),
{
    let mut k: usize = 0;
    let n = v.len();
    while k < n
        invariant
            k <= n == v@.len(),
            forall|j: int| 0 <= j < k ==> spec_is_ws(v@[j]),
        decreases n - k,
    {
        if !is_ws(v[k]) {
            return false;
        }
        k += 1;
    }
    true
}

/// Read a CDATA section whose `<![CDATA[` starts at `i`; its raw content
/// is text, with no entity decoding; ends after `]]>`.
fn parse_cdata(s: &Vec<char>, i: usize) -> (r: Result<(Vec<char>, usize), ZdcError>)
    requires
        i <= s@.len(),
    ensures
        r matches Ok(p) ==> i < p.1 <= s@.len(),
{
    let len = s.len();
    if len - i < 9 || !(s[i] == '<' && s[i + 1] == '!' && s[i + 2] == '[' && s[i + 3] == 'C' && s[
        i + 4] == 'D' && s[i + 5] == 'A' && s[i + 6] == 'T' && s[i + 7] == 'A' && s[i + 8]
        == '[') {
        return Err(ZdcError::Syntax(i));
    }
    let mut buf: Vec<char> = Vec::new();
    let mut pos = i + 9;
    while len - pos > 2
        invariant
            i < pos <= s@.len(),
            len == s@.len(),
        decreases s@.len() - pos,
    {
        if s[pos] == ']' && s[pos + 1] == ']' && s[pos + 2] == '>' {
            return Ok((buf, pos + 3));
        }
        buf.push(s[pos]);
        pos += 1;
    }
    Err(ZdcError::Syntax(i))
}

/// Skip a comment whose `<!--` starts at `i`; ends after `-->`.
fn skip_comment(s: &Vec<char>, i: usize) -> (r: Result<usize, ZdcError>)
    requires
        i <= s@.len(),
    ensures
        r matches Ok(j) ==> i < j <= s@.len(),
    decreases s@.len() - i,
{
    let len = s.len();
    if len - i < 4 || s[i] != '<' || s[i + 1] != '!' || s[i + 2] != '-' || s[i + 3] != '-' {
        return Err(ZdcError::Syntax(i));
    }
    let mut pos = i + 4;
    while len - pos > 2
        invariant
            i < pos <= s@.len(),
            len == s@.len(),
        decreases s@.len() - pos,
    {
        if s[pos] == '-' && s[pos + 1] == '-' && s[pos + 2] == '>' {
            return Ok(pos + 3);
        }
        pos += 1;
    }
    Err(ZdcError::Syntax(i))
}

/// Skip a processing instruction whose `<?` starts at `i`; ends after `?>`.
fn skip_pi(s: &Vec<char>, i: usize) -> (r: Result<usize, ZdcError>)
    requires
        i <= s@.len(),
    ensures
        r matches Ok(j) ==> i < j <= s@.len(),
    decreases s@.len() - i,
{
    let len = s.len();
    if len - i < 2 || s[i] != '<' || s[i + 1] != '?' {
        return Err(ZdcError::Syntax(i));
    }
    let mut pos = i + 2;
    while len - pos > 1
        invariant
            i < pos <= s@.len(),
            len == s@.len(),
        decreases s@.len() - pos,
    {
        if s[pos] == '?' && s[pos + 1] == '>' {
            return Ok(pos + 2);
        }
        pos += 1;
    }
    Err(ZdcError::Syntax(i))
}

/// Parse one element whose `<` stands at `i`.  `depth` is the remaining
/// nesting allowance; a document deeper than the ceiling is rejected.
fn parse_element(s: &Vec<char>, i: usize, depth: usize) -> (r: Result<
    (XmlElement, usize),
    ZdcError,
>)
    requires
        i < s@.len(),
        s@[i as int] == '<',
    ensures
        r matches Ok(p) ==> i < p.1 <= s@.len(),
    decreases s@.len() - i,
{
    if depth == 0 {
        return Err(ZdcError::TooDeep);
    }
    let child_depth = depth - 1;
    let len = s.len();
    let name_start = i + 1;
    let name_end = scan_name(s, name_start);
    if name_end == name_start {
        return Err(ZdcError::Syntax(i));
    }
    let name = chars_range_to_string(s, name_start, name_end);
    let mut attrs: Vec<XmlAttr> = Vec::new();
    let mut pos = name_end;
    // Attribute list, until `>` or `/>`.
    loop
        invariant
            i < pos <= s@.len(),
            len == s@.len(),
        decreases s@.len() - pos,
    {
        pos = skip_ws(s, pos);
        if pos >= len {
            return Err(ZdcError::Syntax(pos));
        }
        let c = s[pos];
        if c == '/' {
            if pos + 1 < len && s[pos + 1] == '>' {
                return Ok((XmlElement { name, attrs, children: Vec::new() }, pos + 2));
            }
            return Err(ZdcError::Syntax(pos));
        } else if c == '>' {
            pos += 1;
            break ;
        } else {
            let an_start = pos;
            let an_end = scan_name(s, an_start);
            if an_end == an_start {
                return Err(ZdcError::Syntax(pos));
            }
            let aname = chars_range_to_string(s, an_start, an_end);
            let mut p = skip_ws(s, an_end);
            if !(p < len && s[p] == '=') {
                return Err(ZdcError::Syntax(p));
            }
            p = skip_ws(s, p + 1);
            if !(p < len && (s[p] == '"' || s[p] == '\'')) {
                return Err(ZdcError::Syntax(p));
            }
            let mut dup: usize = 0;
            while dup < attrs.len()
                invariant
                    dup <= attrs@.len(),
                decreases attrs@.len() - dup,
            {
                if crate::strutil::string_eq_str(&attrs[dup].name, aname.as_str()) {
                    // XML forbids repeating an attribute on one element.
                    return Err(ZdcError::Syntax(an_start));
                }
                dup += 1;
            }
            match parse_quoted(s, p) {
                Ok((value, np)) => {
                    attrs.push(XmlAttr { name: aname, value });
                    pos = np;
                },
                Err(e) => {
                    return Err(e);
                },
            }
        }
    }
    // Children, until the matching end tag.
    let mut children: Vec<XmlNode> = Vec::new();
    loop
        invariant
            i < pos <= s@.len(),
            len == s@.len(),
        decreases s@.len() - pos,
    {
        if pos >= len {
            return Err(ZdcError::Syntax(pos));
        }
        if s[pos] == '<' {
            if pos + 1 < len && s[pos + 1] == '/' {
                // End tag: its name must match the start tag.
                let en_start = pos + 2;
                let en_end = scan_name(s, en_start);
                if en_end == en_start {
                    return Err(ZdcError::Syntax(pos));
                }
                let ename = chars_range_to_string(s, en_start, en_end);
                let p = skip_ws(s, en_end);
                if !(p < len && s[p] == '>') {
                    return Err(ZdcError::Syntax(pos));
                }
                if !crate::strutil::str_eq(name.as_str(), ename.as_str()) {
                    return Err(ZdcError::Syntax(pos));
                }
                return Ok((XmlElement { name, attrs, children }, p + 1));
            } else if len - pos > 3 && s[pos + 1] == '!' && s[pos + 2] == '-' && s[pos + 3]
                == '-' {
                match skip_comment(s, pos) {
                    Ok(np) => {
                        pos = np;
                    },
                    Err(e) => {
                        return Err(e);
                    },
                }
            } else if len - pos > 2 && s[pos + 1] == '!' && s[pos + 2] == '[' {
                match parse_cdata(s, pos) {
                    Ok((buf, np)) => {
                        if !all_ws(&buf) {
                            children.push(XmlNode::Text(chars_to_string(&buf)));
                        }
                        pos = np;
                    },
                    Err(e) => {
                        return Err(e);
                    },
                }
            } else if len - pos > 1 && s[pos + 1] == '?' {
                match skip_pi(s, pos) {
                    Ok(np) => {
                        pos = np;
                    },
                    Err(e) => {
                        return Err(e);
                    },
                }
            } else {
                match parse_element(s, pos, child_depth) {
                    Ok((child, np)) => {
                        children.push(XmlNode::Element(child));
                        pos = np;
                    },
                    Err(e) => {
                        return Err(e);
                    },
                }
            }
        } else {
            match parse_text(s, pos) {
                Ok((buf, np)) => {
                    // Indentation between elements carries no content.
                    if !all_ws(&buf) {
                        children.push(XmlNode::Text(chars_to_string(&buf)));
                    }
                    pos = np;
                },
                Err(e) => {
                    return Err(e);
                },
            }
        }
    }
}

/// Skip a document type declaration whose `<!` starts at `i`; nested angle
/// brackets of an internal subset are balanced, up to a defensive ceiling.
fn skip_doctype(s: &Vec<char>, i: usize) -> (r: Result<usize, ZdcError>)
    requires
        i < s@.len(),
        s@[i as int] == '<',
    ensures
        r matches Ok(j) ==> i < j <= s@.len(),
{
    let len = s.len();
    let mut depth: usize = 1;
    let mut pos = i + 1;
    while pos < len
        invariant
            i < pos <= s@.len(),
            len == s@.len(),
            1 <= depth <= 1000,
        decreases s@.len() - pos,
    {
        let c = s[pos];
        if c == '<' {
            if depth == 1000 {
                return Err(ZdcError::Syntax(pos));
            }
            depth += 1;
        } else if c == '>' {
            if depth == 1 {
                return Ok(pos + 1);
            }
            depth -= 1;
        }
        pos += 1;
    }
    Err(ZdcError::Syntax(i))
}

/// Parse a whole document: an optional byte-order mark, any prolog of
/// processing instructions, comments, a document type declaration and
/// whitespace, one root element, and an epilog of comments and whitespace;
/// anything else is a syntax error.
pub(crate) fn parse_document(s: &Vec<char>) -> (r: Result<XmlElement, ZdcError>) {
    let len = s.len();
    let mut pos: usize = 0;
    if len > 0 && s[0] == '\u{feff}' {
        pos = 1;
    }
    // Prolog.
    loop
        invariant
            pos <= s@.len(),
            len == s@.len(),
        decreases s@.len() - pos,
    {
        pos = skip_ws(s, pos);
        if pos >= len {
            return Err(ZdcError::Syntax(pos));
        }
        if s[pos] != '<' {
            return Err(ZdcError::Syntax(pos));
        }
        if len - pos > 1 && s[pos + 1] == '?' {
            match skip_pi(s, pos) {
                Ok(np) => {
                    pos = np;
                },
                Err(e) => {
                    return Err(e);
                },
            }
        } else if len - pos > 3 && s[pos + 1] == '!' && s[pos + 2] == '-' && s[pos + 3] == '-' {
            match skip_comment(s, pos) {
                Ok(np) => {
                    pos = np;
                },
                Err(e) => {
                    return Err(e);
                },
            }
        } else if len - pos > 1 && s[pos + 1] == '!' {
            match skip_doctype(s, pos) {
                Ok(np) => {
                    pos = np;
                },
                Err(e) => {
                    return Err(e);
                },
            }
        } else {
            break ;
        }
    }
    // Root element.
    if !(pos < len && s[pos] == '<') {
        return Err(ZdcError::Syntax(pos));
    }
    let root = match parse_element(s, pos, MAX_DEPTH) {
        Ok((e, np)) => {
            pos = np;
            e
        },
        Err(e) => {
            return Err(e);
        },
    };
    // Epilog.
    loop
        invariant
            pos <= s@.len(),
            len == s@.len(),
        decreases s@.len() - pos,
    {
        pos = skip_ws(s, pos);
        if pos >= len {
            return Ok(root);
        }
        if len - pos > 3 && s[pos] == '<' && s[pos + 1] == '!' && s[pos + 2] == '-' && s[pos + 3]
            == '-' {
            match skip_comment(s, pos) {
                Ok(np) => {
                    pos = np;
                },
                Err(e) => {
                    return Err(e);
                },
            }
        } else {
            return Err(ZdcError::Syntax(pos));
        }
    }
}

/// Parse a document given as a string.
pub(crate) fn parse_xml(input: &str) -> (r: Result<XmlElement, ZdcError>) {
    let chars = str_to_chars(input);
    parse_document(&chars)
}

} // verus!
