//! The markup parser: a simplified recursive-descent tree builder. It trims
//! the input, skips a leading doctype declaration, and extracts the
//! outermost tag name; malformed input degrades to a `div` fallback root
//! rather than failing. The only structural failure is an exactly empty
//! input. Title extraction searches the tree in pre-order for the first
//! `title` element.

use crate::errors::{BrowserError, BrowserResult};
use crate::types::{Document, Element};
use vstd::prelude::*;
use vstd::string::{StrSliceExecFns, StringExecFns};

verus! {

/// ASCII whitespace, the set the parser trims and splits on.
pub open spec fn is_space_char(c: char) -> bool {
    c == ' ' || c == '\t' || c == '\n' || c == '\r'
}

/// `s` with leading whitespace removed.
pub open spec fn trim_start(s: Seq<char>) -> Seq<char>
    decreases s.len(),
{
    if s.len() > 0 && is_space_char(s[0]) {
        trim_start(s.drop_first())
    } else {
        s
    }
}

/// `s` with trailing whitespace removed.
pub open spec fn trim_end(s: Seq<char>) -> Seq<char>
    decreases s.len(),
{
    if s.len() > 0 && is_space_char(s.last()) {
        trim_end(s.drop_last())
    } else {
        s
    }
}

/// `s` with leading and trailing whitespace removed.
pub open spec fn trim_spec(s: Seq<char>) -> Seq<char> {
    trim_end(trim_start(s))
}

/// Index of the first occurrence of `c` in `s`, or -1 if there is none.
pub open spec fn find_char(s: Seq<char>, c: char) -> int
    decreases s.len(),
{
    if s.len() == 0 {
        -1
    } else if s[0] == c {
        0
    } else {
        let r = find_char(s.drop_first(), c);
        if r == -1 {
            -1
        } else {
            r + 1
        }
    }
}

/// Whether `s` opens with a doctype declaration: `<!doctype` in any casing.
pub open spec fn has_doctype(s: Seq<char>) -> bool {
    &&& s.len() >= 9
    &&& s[0] == '<'
    &&& s[1] == '!'
    &&& (s[2] == 'd' || s[2] == 'D')
    &&& (s[3] == 'o' || s[3] == 'O')
    &&& (s[4] == 'c' || s[4] == 'C')
    &&& (s[5] == 't' || s[5] == 'T')
    &&& (s[6] == 'y' || s[6] == 'Y')
    &&& (s[7] == 'p' || s[7] == 'P')
    &&& (s[8] == 'e' || s[8] == 'E')
}

/// Index of the first whitespace character of `s`, or `s.len()` if none.
pub open spec fn first_space(s: Seq<char>) -> int
    decreases s.len(),
{
    if s.len() == 0 {
        0
    } else if is_space_char(s[0]) {
        0
    } else {
        1 + first_space(s.drop_first())
    }
}

/// The first whitespace-delimited token of a tag header, or `div` when the
/// header holds no token at all.
pub open spec fn token_of(content: Seq<char>) -> Seq<char> {
    let u = trim_start(content);
    if u.len() == 0 {
        "div"@
    } else {
        u.subrange(0, first_space(u))
    }
}

/// The tag name extracted from an already-trimmed input `t`: the first
/// token between the first `<` and the first `>` after it, or `div` when
/// either bracket is missing.
pub open spec fn tag_of(t: Seq<char>) -> Seq<char> {
    let i = find_char(t, '<');
    if i == -1 {
        "div"@
    } else {
        let j = find_char(t.subrange(i, t.len() as int), '>');
        if j == -1 {
            "div"@
        } else {
            token_of(t.subrange(i + 1, i + j))
        }
    }
}

/// The root tag name the parser derives from raw input: trim, skip a
/// leading doctype declaration up to its closing `>` (resuming on the
/// remainder), then extract the outermost tag name. A doctype with no
/// closing `>` is ignored and normal scanning proceeds.
pub open spec fn root_tag_of(s: Seq<char>) -> Seq<char>
    decreases s.len(),
{
    let t = trim_spec(s);
    let p = find_char(t, '>');
    if has_doctype(t) && p >= 0 {
        proof {
            lemma_trim_spec_len(s);
            lemma_find_char(t, '>');
        }
        root_tag_of(t.subrange(p + 1, t.len() as int))
    } else {
        tag_of(t)
    }
}

/// The text carried by a node, the empty sequence when it has none.
pub open spec fn text_of(t: Option<String>) -> Seq<char> {
    match t {
        Some(s) => s@,
        None => Seq::empty(),
    }
}

/// The text of the first `title` element in pre-order, if any.
pub open spec fn find_title(e: Element) -> Option<Seq<char>>
    decreases e, 1int,
{
    if e.tag@ == "title"@ {
        Some(text_of(e.text_content))
    } else {
        find_title_seq(e.children@)
    }
}

/// The first `title` text found across a forest, searched left to right.
pub open spec fn find_title_seq(s: Seq<Element>) -> Option<Seq<char>>
    decreases s, 0int,
{
    if s.len() == 0 {
        None
    } else {
        match find_title(s[0]) {
            Some(t) => Some(t),
            None => find_title_seq(s.drop_first()),
        }
    }
}

/// The document title derived from a tree: the first `title` element's
/// text, or the literal `Untitled` when no `title` element exists.
pub open spec fn title_of(e: Element) -> Seq<char> {
    match find_title(e) {
        Some(t) => t,
        None => "Untitled"@,
    }
}

/// Removing leading whitespace never lengthens a sequence.
proof fn lemma_trim_start_len(s: Seq<char>)
    ensures
        trim_start(s).len() <= s.len(),
    decreases s.len(),
{
    if s.len() > 0 && is_space_char(s[0]) {
        lemma_trim_start_len(s.drop_first());
    }
}

/// Removing trailing whitespace never lengthens a sequence.
proof fn lemma_trim_end_len(s: Seq<char>)
    ensures
        trim_end(s).len() <= s.len(),
    decreases s.len(),
{
    if s.len() > 0 && is_space_char(s.last()) {
        lemma_trim_end_len(s.drop_last());
    }
}

/// Trimming never lengthens a sequence.
pub proof fn lemma_trim_spec_len(s: Seq<char>)
    ensures
        trim_spec(s).len() <= s.len(),
{
    lemma_trim_start_len(s);
    lemma_trim_end_len(trim_start(s));
}

/// Where `find_char` lands: at a hit it returns the first index holding
/// `c`; at -1 the character does not occur.
pub proof fn lemma_find_char(s: Seq<char>, c: char)
    ensures
        find_char(s, c) == -1 ==> forall|i: int| 0 <= i < s.len() ==> s[i] != c,
        find_char(s, c) != -1 ==> 0 <= find_char(s, c) < s.len() && s[find_char(s, c)] == c,
    decreases s.len(),
{
    if s.len() > 0 && s[0] != c {
        lemma_find_char(s.drop_first(), c);
        if find_char(s, c) == -1 {
            assert forall|i: int| 0 <= i < s.len() implies s[i] != c by {
                if i > 0 {
                    assert(s.drop_first()[i - 1] == s[i]);
                }
            }
        }
    }
}

/// `find_char` returns `k` when `c` first occurs at `k`.
proof fn lemma_find_char_at(s: Seq<char>, c: char, k: int)
    requires
        0 <= k < s.len(),
        s[k] == c,
        forall|i: int| 0 <= i < k ==> s[i] != c,
    ensures
        find_char(s, c) == k,
    decreases k,
{
    if k > 0 {
        lemma_find_char_at(s.drop_first(), c, k - 1);
    }
}

/// `find_char` returns -1 when `c` does not occur.
proof fn lemma_find_char_none(s: Seq<char>, c: char)
    requires
        forall|i: int| 0 <= i < s.len() ==> s[i] != c,
    ensures
        find_char(s, c) == -1,
    decreases s.len(),
{
    if s.len() > 0 {
        lemma_find_char_none(s.drop_first(), c);
    }
}

/// When the first `k` characters are whitespace and the next one is not,
/// trimming the start drops exactly those `k`.
proof fn lemma_trim_start_at(s: Seq<char>, k: int)
    requires
        0 <= k <= s.len(),
        forall|i: int| 0 <= i < k ==> is_space_char(s[i]),
        k < s.len() ==> !is_space_char(s[k]),
    ensures
        trim_start(s) == s.subrange(k, s.len() as int),
    decreases k,
{
    if k == 0 {
        assert(trim_start(s) =~= s.subrange(0, s.len() as int));
    } else {
        lemma_trim_start_at(s.drop_first(), k - 1);
        assert(s.drop_first().subrange(k - 1, s.drop_first().len() as int) =~= s.subrange(
            k,
            s.len() as int,
        ));
    }
}

/// When everything from `b` on is whitespace and the character before `b`
/// is not, trimming the end keeps exactly the first `b`.
proof fn lemma_trim_end_at(s: Seq<char>, b: int)
    requires
        0 <= b <= s.len(),
        forall|i: int| b <= i < s.len() ==> is_space_char(s[i]),
        b > 0 ==> !is_space_char(s[b - 1]),
    ensures
        trim_end(s) == s.subrange(0, b),
    decreases s.len(),
{
    if s.len() > b {
        lemma_trim_end_at(s.drop_last(), b);
        assert(s.drop_last().subrange(0, b) =~= s.subrange(0, b));
    } else {
        assert(trim_end(s) =~= s.subrange(0, b));
    }
}

/// `first_space` returns `m` when the first `m` characters are not
/// whitespace and the one at `m`, if any, is.
proof fn lemma_first_space_at(s: Seq<char>, m: int)
    requires
        0 <= m <= s.len(),
        forall|i: int| 0 <= i < m ==> !is_space_char(s[i]),
        m < s.len() ==> is_space_char(s[m]),
    ensures
        first_space(s) == m,
    decreases m,
{
    if m > 0 {
        lemma_first_space_at(s.drop_first(), m - 1);
    }
}

/// Searching a forest skips over subtrees that hold no title.
proof fn lemma_find_title_seq_skip(s: Seq<Element>, k: int)
    requires
        0 <= k <= s.len(),
        forall|i: int| 0 <= i < k ==> find_title(#[trigger] s[i]) is None,
    ensures
        find_title_seq(s) == find_title_seq(s.subrange(k, s.len() as int)),
    decreases k,
{
    if k == 0 {
        assert(s.subrange(0, s.len() as int) =~= s);
    } else {
        assert(find_title(s[0]) is None);
        lemma_find_title_seq_skip(s.drop_first(), k - 1);
        assert(s.drop_first().subrange(k - 1, s.drop_first().len() as int) =~= s.subrange(
            k,
            s.len() as int,
        ));
    }
}

/// Whether `c` is ASCII whitespace.
fn is_space(c: char) -> (b: bool)
    ensures
        b == is_space_char(c),
{
    c == ' ' || c == '\t' || c == '\n' || c == '\r'
}

/// Trim leading and trailing whitespace.
fn trim(s: &str) -> (t: &str)
    ensures
        t@ == trim_spec(s@),
{
    let n = s.unicode_len();
    let mut a: usize = 0;
    while a < n && is_space(s.get_char(a))
        invariant
            n == s@.len(),
            a <= n,
            forall|i: int| 0 <= i < a ==> is_space_char(s@[i]),
        decreases n - a,
    {
        a = a + 1;
    }
    let mut b: usize = n;
    while b > a && is_space(s.get_char(b - 1))
        invariant
            n == s@.len(),
            a <= b <= n,
            forall|i: int| b <= i < n ==> is_space_char(s@[i]),
        decreases b,
    {
        b = b - 1;
    }
    proof {
        lemma_trim_start_at(s@, a as int);
        let u = s@.subrange(a as int, n as int);
        lemma_trim_end_at(u, b - a as int);
        assert(u.subrange(0, b - a as int) =~= s@.subrange(a as int, b as int));
    }
    s.substring_char(a, b)
}

/// Whether the input opens with a doctype declaration in any casing.
fn is_doctype(t: &str) -> (b: bool)
    ensures
        b == has_doctype(t@),
{
    let n = t.unicode_len();
    if n < 9 {
        return false;
    }
    let c0 = t.get_char(0);
    let c1 = t.get_char(1);
    let c2 = t.get_char(2);
    let c3 = t.get_char(3);
    let c4 = t.get_char(4);
    let c5 = t.get_char(5);
    let c6 = t.get_char(6);
    let c7 = t.get_char(7);
    let c8 = t.get_char(8);
    c0 == '<' && c1 == '!' && (c2 == 'd' || c2 == 'D') && (c3 == 'o' || c3 == 'O') && (c4 == 'c'
        || c4 == 'C') && (c5 == 't' || c5 == 'T') && (c6 == 'y' || c6 == 'Y') && (c7 == 'p' || c7
        == 'P') && (c8 == 'e' || c8 == 'E')
}

/// Scan for the first occurrence of `c` at or after `from`.
fn find_from(s: &str, from: usize, c: char) -> (r: Option<usize>)
    requires
        from <= s@.len(),
    ensures
        match r {
            Some(k) => {
                &&& from <= k < s@.len()
                &&& s@[k as int] == c
                &&& forall|i: int| from <= i < k ==> s@[i] != c
                &&& find_char(s@.subrange(from as int, s@.len() as int), c) == k - from
            },
            None => {
                &&& forall|i: int| from <= i < s@.len() ==> s@[i] != c
                &&& find_char(s@.subrange(from as int, s@.len() as int), c) == -1
            },
        },
{
    let n = s.unicode_len();
    let mut k: usize = from;
    while k < n && s.get_char(k) != c
        invariant
            n == s@.len(),
            from <= k <= n,
            forall|i: int| from <= i < k ==> s@[i] != c,
        decreases n - k,
    {
        k = k + 1;
    }
    let ghost sub = s@.subrange(from as int, s@.len() as int);
    if k < n {
        proof {
            assert(sub[k - from as int] == s@[k as int]);
            assert(forall|i: int| 0 <= i < k - from ==> sub[i] == s@[i + from]);
            lemma_find_char_at(sub, c, k - from as int);
        }
        Some(k)
    } else {
        proof {
            assert(forall|i: int| 0 <= i < sub.len() ==> sub[i] == s@[i + from]);
            lemma_find_char_none(sub, c);
        }
        None
    }
}

/// Extract the first whitespace-delimited token of a tag header, falling
/// back to `div` when the header is empty or all whitespace.
fn token_string(content: &str) -> (tag: String)
    ensures
        tag@ == token_of(content@),
{
    let n = content.unicode_len();
    let mut k: usize = 0;
    while k < n && is_space(content.get_char(k))
        invariant
            n == content@.len(),
            k <= n,
            forall|i: int| 0 <= i < k ==> is_space_char(content@[i]),
        decreases n - k,
    {
        k = k + 1;
    }
    proof {
        lemma_trim_start_at(content@, k as int);
    }
    if k == n {
        String::from_str("div")
    } else {
        let mut m: usize = k;
        while m < n && !is_space(content.get_char(m))
            invariant
                n == content@.len(),
                k <= m <= n,
                forall|i: int| k <= i < m ==> !is_space_char(content@[i]),
            decreases n - m,
        {
            m = m + 1;
        }
        proof {
            let u = content@.subrange(k as int, n as int);
            assert(forall|i: int| 0 <= i < u.len() ==> u[i] == content@[i + k]);
            lemma_first_space_at(u, m - k as int);
            assert(u.subrange(0, m - k as int) =~= content@.subrange(k as int, m as int));
        }
        content.substring_char(k, m).to_owned()
    }
}

/// The markup parser.
pub struct HtmlParser;

impl HtmlParser {
    /// Parse a markup string into a document. Fails exactly when the input
    /// is the empty string; every other input yields a document whose root
    /// carries the extracted outermost tag name and whose title is derived
    /// from the tree.
    pub fn parse(html: &str, url: &str) -> (r: BrowserResult<Document>)
        ensures
            r is Err <==> html@.len() == 0,
            r matches Err(e) ==> e matches BrowserError::Parse(m) && m@ == "Empty HTML"@,
            r matches Ok(doc) ==> {
                &&& doc.root.tag@ == root_tag_of(html@)
                &&& doc.root.attributes@.len() == 0
                &&& doc.root.children@.len() == 0
                &&& doc.root.text_content is None
                &&& doc.title@ == title_of(doc.root)
                &&& doc.title@ == (if root_tag_of(html@) == "title"@ {
                    Seq::<char>::empty()
                } else {
                    "Untitled"@
                })
                &&& doc.url@ == url@
            },
    {
        if html.is_empty() {
            return Err(BrowserError::Parse(String::from_str("Empty HTML")));
        }
        let root = Self::parse_element(html);
        let title = Self::extract_title(&root);
        Ok(Document { title, root, url: url.to_owned() })
    }

    /// Extract the outermost element of a markup string: trim, skip a
    /// leading doctype declaration, then read the first tag name between
    /// `<` and `>`; malformed input yields an empty `div` element. The
    /// result is always a single node without attributes, children or
    /// text.
    pub fn parse_element(html: &str) -> (root: Element)
        ensures
            root.tag@ == root_tag_of(html@),
            root.attributes@.len() == 0,
            root.children@.len() == 0,
            root.text_content is None,
        decreases html@.len(),
    {
        let t = trim(html);
        let tl = t.unicode_len();
        if is_doctype(t) {
            if let Some(p) = find_from(t, 0, '>') {
                proof {
                    lemma_trim_spec_len(html@);
                    assert(t@.subrange(0, t@.len() as int) =~= t@);
                }
                let rest = t.substring_char(p + 1, tl);
                return Self::parse_element(rest);
            }
        }
        proof {
            assert(t@.subrange(0, t@.len() as int) =~= t@);
        }
        match find_from(t, 0, '<') {
            None => Element::new("div"),
            Some(i) => {
                match find_from(t, i, '>') {
                    None => Element::new("div"),
                    Some(j) => {
                        let content = t.substring_char(i + 1, j);
                        let tag = token_string(content);
                        Element::new(tag.as_str())
                    },
                }
            },
        }
    }

    /// Derive the document title: the text of the first `title` element in
    /// pre-order, or `Untitled` when the tree holds none.
    pub fn extract_title(root: &Element) -> (title: String)
        ensures
            title@ == title_of(*root),
    {
        match Self::search_title(root) {
            Some(t) => t,
            None => String::from_str("Untitled"),
        }
    }

    /// Pre-order search for the first `title` element's text.
    fn search_title(e: &Element) -> (r: Option<String>)
        ensures
            r is Some <==> find_title(*e) is Some,
            r matches Some(s) ==> find_title(*e) matches Some(t) && s@ == t,
        decreases *e,
    {
        if e.tag == String::from_str("title") {
            match &e.text_content {
                Some(t) => Some(t.clone()),
                None => Some(String::new()),
            }
        } else {
            let n = e.children.len();
            let mut i: usize = 0;
            while i < n
                invariant
                    n == e.children@.len(),
                    i <= n,
                    e.tag@ != "title"@,
                    forall|k: int| 0 <= k < i ==> find_title(#[trigger] e.children@[k]) is None,
                decreases n - i,
            {
                let c = &e.children[i];
                proof {
                    assert(decreases_to!(*e => e.children@[i as int]));
                }
                let r = Self::search_title(c);
                if r.is_some() {
                    proof {
                        lemma_find_title_seq_skip(e.children@, i as int);
                        let rest = e.children@.subrange(i as int, e.children@.len() as int);
                        assert(rest[0] == e.children@[i as int]);
                    }
                    return r;
                }
                i = i + 1;
            }
            proof {
                lemma_find_title_seq_skip(e.children@, n as int);
            }
            None
        }
    }
}

} // verus!
