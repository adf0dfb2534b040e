//! What the web pages need decided: which files may be asked for, and which
//! bytes of a file a request is about.

use vstd::prelude::*;
use vstd::string::StringExecFns;
use vstd::string::StrSliceExecFns;

verus! {

/// The camera and the file that a request for a recording names.
#[derive(Debug)]
pub struct VideoPath {
    pub name: String,
    pub filename: String,
}

/// The text holds a slash.
pub open spec fn has_slash(text: Seq<char>) -> bool {
    exists|i: int| 0 <= i < text.len() && #[trigger] text[i] == '/'
}

/// The text holds two dots in a row.
pub open spec fn has_two_dots(text: Seq<char>) -> bool {
    exists|i: int| 0 <= i < text.len() - 1 && #[trigger] text[i] == '.' && text[i + 1] == '.'
}

/// A file name that stays inside its directory: without a slash and without
/// two dots in a row.
pub open spec fn stays_inside(filename: Seq<char>) -> bool {
    !has_slash(filename) && !has_two_dots(filename)
}

/// Whether `filename` names a file inside the directory it is looked up in.
pub fn is_plain_filename(filename: &str) -> (plain: bool)
    ensures
        plain == stays_inside(filename@),
{
    let mut after_dot = false;
    for c in it: filename.chars()
        invariant
            it.seq() == filename@,
            forall|j: int| 0 <= j < it.index() ==> #[trigger] filename@[j] != '/',
            forall|j: int|
                0 <= j < it.index() - 1 ==> !(#[trigger] filename@[j] == '.' && filename@[j + 1]
                    == '.'),
            after_dot == (it.index() > 0 && filename@[it.index() - 1] == '.'),
    {
        if c == '/' {
            assert(filename@[it.index() as int] == '/');
            return false;
        }
        if c == '.' && after_dot {
            assert(filename@[it.index() - 1] == '.' && filename@[it.index() - 1 + 1] == '.');
            return false;
        }
        after_dot = c == '.';
    }
    true
}

/// The text ends in `.mp4`.
pub open spec fn names_clip(filename: Seq<char>) -> bool {
    let n = filename.len() as int;
    n >= 4 && filename[n - 4] == '.' && filename[n - 3] == 'm' && filename[n - 2] == 'p'
        && filename[n - 1] == '4'
}

/// Whether `filename` is the name of a clip or a recording.
pub fn is_clip_name(filename: &str) -> (clip: bool)
    ensures
        clip == names_clip(filename@),
{
    let n = filename.unicode_len();
    n >= 4 && filename.get_char(n - 4) == '.' && filename.get_char(n - 3) == 'm'
        && filename.get_char(n - 2) == 'p' && filename.get_char(n - 1) == '4'
}

/// One character as it stands in a page: the five characters that mean
/// something to a browser are written out as entities.
pub open spec fn escaped_char(c: char) -> Seq<char> {
    if c == '&' {
        "&amp;"@
    } else if c == '<' {
        "&lt;"@
    } else if c == '>' {
        "&gt;"@
    } else if c == '"' {
        "&quot;"@
    } else if c == '\'' {
        "&#x27;"@
    } else {
        seq![c]
    }
}

/// A text as it stands in a page or inside a quoted attribute.
pub open spec fn escaped(text: Seq<char>) -> Seq<char>
    decreases text.len(),
{
    if text.len() == 0 {
        Seq::empty()
    } else {
        escaped(text.drop_last()) + escaped_char(text.last())
    }
}

/// A character that opens or closes a tag or a quoted attribute.
pub open spec fn is_markup(c: char) -> bool {
    c == '<' || c == '>' || c == '"' || c == '\''
}

/// No character as it stands in a page is markup.
pub proof fn lemma_escaped_char_inert(c: char, i: int)
    requires
        0 <= i < escaped_char(c).len(),
    ensures
        !is_markup(escaped_char(c)[i]),
{
    reveal_strlit("&amp;");
    reveal_strlit("&lt;");
    reveal_strlit("&gt;");
    reveal_strlit("&quot;");
    reveal_strlit("&#x27;");
}

/// A text as it stands in a page holds no markup: it cannot open or close a
/// tag, nor end a quoted attribute.
pub proof fn law_escaped_text_is_inert(text: Seq<char>, i: int)
    requires
        0 <= i < escaped(text).len(),
    ensures
        !is_markup(escaped(text)[i]),
    decreases text.len(),
{
    if text.len() > 0 {
        let head = escaped(text.drop_last());
        if i < head.len() {
            law_escaped_text_is_inert(text.drop_last(), i);
        } else {
            lemma_escaped_char_inert(text.last(), i - head.len());
        }
    }
}

/// Appends one character through `String::push`, which puts the character at
/// the end of the string.
pub assume_specification[ String::push ](text: &mut String, c: char)
    ensures
        final(text)@ == old(text)@.push(c),
;

/// Makes a text safe to stand in a page or inside a quoted attribute.
pub fn escape_html(text: &str) -> (out: String)
    ensures
        out@ == escaped(text@),
{
    let mut out = String::new();
    for c in it: text.chars()
        invariant
            it.seq() == text@,
            out@ == escaped(text@.take(it.index() as int)),
    {
        proof {
            assert(text@.take(it.index() + 1).drop_last() =~= text@.take(it.index() as int));
        }
        if c == '&' {
            out.append("&amp;");
        } else if c == '<' {
            out.append("&lt;");
        } else if c == '>' {
            out.append("&gt;");
        } else if c == '"' {
            out.append("&quot;");
        } else if c == '\'' {
            out.append("&#x27;");
        } else {
            out.push(c);
        }
    }
    proof {
        assert(text@.take(text@.len() as int) =~= text@);
    }
    out
}

impl VideoPath {
    /// Whether the file asked for lies inside the camera's directory.
    pub fn is_plain(&self) -> (plain: bool)
        ensures
            plain == stays_inside(self.filename@),
    {
        is_plain_filename(self.filename.as_str())
    }
}

/// One end of a range of bytes, as a request gives it.
#[derive(Clone, Copy, Debug, PartialEq, Eq, Structural)]
pub enum RangeBound {
    Included(u64),
    Excluded(u64),
    Unbounded,
}

/// The first byte that a range with this lower end takes in.
pub open spec fn first_byte(start: RangeBound) -> int {
    match start {
        RangeBound::Included(i) => i as int,
        RangeBound::Excluded(i) => i + 1,
        RangeBound::Unbounded => 0,
    }
}

/// The first byte that a range with this upper end leaves out, in a file of
/// `length` bytes.
pub open spec fn end_byte(end: RangeBound, length: u64) -> int {
    match end {
        RangeBound::Included(i) => i + 1,
        RangeBound::Excluded(i) => i as int,
        RangeBound::Unbounded => length as int,
    }
}

/// The bytes `start..end` of a file of `length` bytes that a request is
/// about; `None` for a range that ends before it starts or behind the end
/// of the file.
pub fn resolve_range(start: RangeBound, end: RangeBound, length: u64) -> (range: Option<(u64, u64)>)
    ensures
        range is Some <==> first_byte(start) <= end_byte(end, length) <= length,
        range matches Some((from, to)) ==> from == first_byte(start) && to == end_byte(end, length),
{
    let from: u128 = match start {
        RangeBound::Included(i) => i as u128,
        RangeBound::Excluded(i) => i as u128 + 1,
        RangeBound::Unbounded => 0,
    };
    let to: u128 = match end {
        RangeBound::Included(i) => i as u128 + 1,
        RangeBound::Excluded(i) => i as u128,
        RangeBound::Unbounded => length as u128,
    };
    if from > to || to > length as u128 {
        None
    } else {
        Some((from as u64, to as u64))
    }
}

} // verus!
