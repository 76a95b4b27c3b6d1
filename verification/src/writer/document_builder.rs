//! Document metadata, text alignment and plain word wrapping.
use crate::text::{
    add_clamped, char_utf8_width, char_width, is_word, join_spaced, lemma_split_state_words, clamp_usize, is_whitespace, lemma_utf8_len_concat,
    lemma_utf8_len_ge_len, push_char, split_state, utf8_len, words,
};
use vstd::string::StringExecFns;
use crate::writer::pdf_writer::{info_entries_spec, PdfWriterConfig};
use vstd::prelude::*;

verus! {

broadcast use vstd::string::group_string_axioms;

/// Metadata for a PDF document.
#[derive(Debug, Clone, Default)]
pub struct DocumentMetadata {
    /// Document title
    pub title: Option<String>,
    /// Document author
    pub author: Option<String>,
    /// Document subject
    pub subject: Option<String>,
    /// Document keywords
    pub keywords: Option<String>,
    /// Creator application
    pub creator: Option<String>,
    /// PDF version (default: "1.7")
    pub version: Option<String>,
}

/// The characters of an optional string.
pub open spec fn opt_chars(o: Option<String>) -> Option<Seq<char>> {
    match o {
        Some(s) => Some(s@),
        None => None,
    }
}

impl DocumentMetadata {
    /// Create new empty metadata.
    pub fn new() -> (r: Self)
        ensures
            r.title is None,
            r.author is None,
            r.subject is None,
            r.keywords is None,
            r.creator is None,
            r.version is None,
    {
        DocumentMetadata {
            title: None,
            author: None,
            subject: None,
            keywords: None,
            creator: None,
            version: None,
        }
    }

    /// Set document title.
    pub fn title(self, title: &str) -> (r: Self)
        ensures
            opt_chars(r.title) == Some(title@),
            r.author == self.author,
            r.subject == self.subject,
            r.keywords == self.keywords,
            r.creator == self.creator,
            r.version == self.version,
    {
        DocumentMetadata { title: Some(title.to_owned()), ..self }
    }

    /// Set document author.
    pub fn author(self, author: &str) -> (r: Self)
        ensures
            opt_chars(r.author) == Some(author@),
            r.title == self.title,
            r.subject == self.subject,
            r.keywords == self.keywords,
            r.creator == self.creator,
            r.version == self.version,
    {
        DocumentMetadata { author: Some(author.to_owned()), ..self }
    }

    /// Set document subject.
    pub fn subject(self, subject: &str) -> (r: Self)
        ensures
            opt_chars(r.subject) == Some(subject@),
            r.title == self.title,
            r.author == self.author,
            r.keywords == self.keywords,
            r.creator == self.creator,
            r.version == self.version,
    {
        DocumentMetadata { subject: Some(subject.to_owned()), ..self }
    }

    /// Set document keywords.
    pub fn keywords(self, keywords: &str) -> (r: Self)
        ensures
            opt_chars(r.keywords) == Some(keywords@),
            r.title == self.title,
            r.author == self.author,
            r.subject == self.subject,
            r.creator == self.creator,
            r.version == self.version,
    {
        DocumentMetadata { keywords: Some(keywords.to_owned()), ..self }
    }

    /// Set creator application.
    pub fn creator(self, creator: &str) -> (r: Self)
        ensures
            opt_chars(r.creator) == Some(creator@),
            r.title == self.title,
            r.author == self.author,
            r.subject == self.subject,
            r.keywords == self.keywords,
            r.version == self.version,
    {
        DocumentMetadata { creator: Some(creator.to_owned()), ..self }
    }
}

fn clone_opt(o: &Option<String>) -> (r: Option<String>)
    ensures
        r == *o,
{
    match o {
        Some(s) => Some(s.clone()),
        None => None,
    }
}

/// The writer configuration a document is built with: the defaults,
/// overridden by the metadata's version when set, its title, author,
/// subject and keywords, and its creator when set.
pub fn writer_config_for(metadata: &DocumentMetadata) -> (r: PdfWriterConfig)
    ensures
        match metadata.version {
            Some(v) => r.version == v,
            None => r.version@ == "1.7"@,
        },
        r.title == metadata.title,
        r.author == metadata.author,
        r.subject == metadata.subject,
        r.keywords == metadata.keywords,
        match metadata.creator {
            Some(c) => r.creator == Some(c),
            None => r.creator is Some && r.creator->0@ == "pdf_oxide"@,
        },
        !r.compress,
{
    let mut config = PdfWriterConfig::default();
    if let Some(version) = &metadata.version {
        config.version = version.clone();
    }
    config.title = clone_opt(&metadata.title);
    config.author = clone_opt(&metadata.author);
    config.subject = clone_opt(&metadata.subject);
    config.keywords = clone_opt(&metadata.keywords);
    if metadata.creator.is_some() {
        config.creator = clone_opt(&metadata.creator);
    }
    config
}

/// Document metadata reaches the information dictionary: title, author
/// and subject as set, the creator as set or else `pdf_oxide`, and never
/// the keywords.
pub proof fn lemma_metadata_info_entries(m: DocumentMetadata, c: PdfWriterConfig)
    requires
        c.title == m.title,
        c.author == m.author,
        c.subject == m.subject,
        c.keywords == m.keywords,
        match m.creator {
            Some(x) => c.creator == Some(x),
            None => c.creator is Some && c.creator->0@ == "pdf_oxide"@,
        },
    ensures
        info_entries_spec(c) == (match m.title {
            Some(t) => seq![("Title"@, t@)],
            None => Seq::empty(),
        }) + (match m.author {
            Some(t) => seq![("Author"@, t@)],
            None => Seq::empty(),
        }) + (match m.subject {
            Some(t) => seq![("Subject"@, t@)],
            None => Seq::empty(),
        }) + (match m.creator {
            Some(t) => seq![("Creator"@, t@)],
            None => seq![("Creator"@, "pdf_oxide"@)],
        }),
        forall|i: int|
            0 <= i < info_entries_spec(c).len() ==> (#[trigger] info_entries_spec(c)[i]).0
                != "Keywords"@,
{
    reveal_strlit("Keywords");
    reveal_strlit("Title");
    reveal_strlit("Author");
    reveal_strlit("Subject");
    reveal_strlit("Creator");
    let e = info_entries_spec(c);
    assert forall|i: int| 0 <= i < e.len() implies (#[trigger] e[i]).0 != "Keywords"@ by {
        assert(e[i].0 == "Title"@ || e[i].0 == "Author"@ || e[i].0 == "Subject"@ || e[i].0
            == "Creator"@);
        assert("Keywords"@[0] == 'K');
        assert(e[i].0[0] != 'K');
    }
}

/// Text alignment options.
#[derive(Debug, Clone, Copy, Default, PartialEq, Eq)]
pub enum TextAlign {
    /// Left-aligned text (default)
    #[default]
    Left,
    /// Center-aligned text
    Center,
    /// Right-aligned text
    Right,
}

/// Lines and current line after greedily placing the words `ws` on lines of
/// at most `max` bytes (a word longer than `max` gets a line of its own).
pub open spec fn wrap_state(ws: Seq<Seq<char>>, max: nat) -> (Seq<Seq<char>>, Seq<char>)
    decreases ws.len(),
{
    if ws.len() == 0 {
        (Seq::empty(), Seq::empty())
    } else {
        let st = wrap_state(ws.drop_last(), max);
        let w = ws.last();
        if st.1.len() == 0 {
            (st.0, w)
        } else if utf8_len(st.1) + 1 + utf8_len(w) <= max {
            (st.0, st.1 + seq![' '] + w)
        } else {
            (st.0.push(st.1), w)
        }
    }
}

/// The lines that greedy wrapping of the words `ws` at `max` bytes gives;
/// one empty line when there are no words.
pub open spec fn wrap_words(ws: Seq<Seq<char>>, max: nat) -> Seq<Seq<char>> {
    let st = wrap_state(ws, max);
    let lines = if st.1.len() > 0 {
        st.0.push(st.1)
    } else {
        st.0
    };
    if lines.len() == 0 {
        seq![Seq::empty()]
    } else {
        lines
    }
}

/// Greedy word wrap of `text` at `max_chars` bytes per line.
pub open spec fn wrap_text_spec(text: Seq<char>, max_chars: nat) -> Seq<Seq<char>> {
    wrap_words(words(text), max_chars)
}

/// Exec state of the wrapper: finished lines, current line and its length.
struct WrapState {
    lines: Vec<String>,
    cur: String,
    cur_len: usize,
}

/// Feed one word to the wrapper state.
fn wrap_feed(
    st: &mut WrapState,
    word: String,
    word_len: usize,
    max_chars: usize,
    Ghost(ws): Ghost<Seq<Seq<char>>>,
)
    requires
        ({
            let s = wrap_state(ws, max_chars as nat);
            &&& old(st).lines.deep_view() == s.0
            &&& old(st).cur@ == s.1
            &&& old(st).cur_len == clamp_usize(utf8_len(s.1) as int)
        }),
        word_len == clamp_usize(utf8_len(word@) as int),
    ensures
        ({
            let s = wrap_state(ws.push(word@), max_chars as nat);
            &&& final(st).lines.deep_view() == s.0
            &&& final(st).cur@ == s.1
            &&& final(st).cur_len == clamp_usize(utf8_len(s.1) as int)
        }),
{
    let ghost ws2 = ws.push(word@);
    assert(ws2.drop_last() == ws);
    let ghost s = wrap_state(ws, max_chars as nat);
    if st.cur_len == 0 {
        proof {
            lemma_utf8_len_ge_len(s.1);
        }
        st.cur = word;
        st.cur_len = word_len;
    } else {
        let fits = st.cur_len < max_chars && word_len <= max_chars - st.cur_len - 1;
        if fits {
            push_char(&mut st.cur, ' ');
            st.cur.append(word.as_str());
            proof {
                lemma_utf8_len_concat(s.1, seq![' ']);
                lemma_utf8_len_concat(s.1 + seq![' '], word@);
                assert(utf8_len(seq![' ']) == 1) by {
                    assert(seq![' '].drop_last() == Seq::<char>::empty());
                    assert((' ' as u32) == 32);
                    assert(char_width(' ') == 1);
                    assert(seq![' '].last() == ' ');
                    assert(utf8_len(Seq::<char>::empty()) == 0);
                }
            }
            st.cur_len = st.cur_len + 1 + word_len;
        } else {
            let mut w = word;
            std::mem::swap(&mut st.cur, &mut w);
            st.lines.push(w);
            st.cur_len = word_len;
            assert(st.lines.deep_view() =~= s.0.push(s.1));
        }
    }
}

/// Simple word wrapping utility: splits `text` at white space and greedily
/// packs the words, separated by one space, on lines of at most
/// `max_chars` bytes; a longer word stands on a line of its own. Returns one
/// empty line when `text` has no words.
pub fn wrap_text(text: &str, max_chars: usize) -> (r: Vec<String>)
    ensures
        r.deep_view() == wrap_text_spec(text@, max_chars as nat),
{
    let mut st = WrapState { lines: Vec::new(), cur: String::new(), cur_len: 0 };
    let mut word = String::new();
    let mut word_len: usize = 0;
    let ghost mut done: Seq<Seq<char>> = Seq::empty();
    assert(st.lines.deep_view() =~= Seq::<Seq<char>>::empty());
    for c in it: text.chars()
        invariant
            it.seq() == text@,
            split_state(text@.take(it.index() as int)).0 == done,
            split_state(text@.take(it.index() as int)).1 == word@,
            word_len == clamp_usize(utf8_len(word@) as int),
            ({
                let s = wrap_state(done, max_chars as nat);
                &&& st.lines.deep_view() == s.0
                &&& st.cur@ == s.1
                &&& st.cur_len == clamp_usize(utf8_len(s.1) as int)
            }),
    {
        assert(text@.take(it.index() + 1).drop_last() == text@.take(it.index() as int));
        if is_whitespace(c) {
            proof {
                lemma_utf8_len_ge_len(word@);
            }
            if word_len > 0 {
                let w = word;
                word = String::new();
                wrap_feed(&mut st, w, word_len, max_chars, Ghost(done));
                proof {
                    done = done.push(w@);
                }
                word_len = 0;
            }
        } else {
            let ghost old_word = word@;
            push_char(&mut word, c);
            proof {
                assert(word@.drop_last() == old_word);
            }
            word_len = add_clamped(word_len, char_utf8_width(c));
        }
    }
    assert(text@.take(text@.len() as int) == text@);
    proof {
        lemma_utf8_len_ge_len(word@);
    }
    if word_len > 0 {
        let ghost wv = word@;
        wrap_feed(&mut st, word, word_len, max_chars, Ghost(done));
        proof {
            done = done.push(wv);
        }
    }
    assert(done == words(text@));
    let ghost s = wrap_state(done, max_chars as nat);
    proof {
        lemma_utf8_len_ge_len(s.1);
    }
    let mut lines = st.lines;
    if st.cur_len > 0 {
        lines.push(st.cur);
        assert(lines.deep_view() =~= s.0.push(s.1));
    }
    if lines.len() == 0 {
        lines.push(String::new());
        assert(lines.deep_view() =~= seq![Seq::<char>::empty()]);
    }
    lines
}

/// A line fits when it is at most `max` bytes long or is a single word.
pub open spec fn line_fits(line: Seq<char>, max: nat) -> bool {
    utf8_len(line) <= max || is_word(line)
}

proof fn lemma_join_spaced_push(ls: Seq<Seq<char>>, x: Seq<char>)
    ensures
        ls.len() == 0 ==> join_spaced(ls.push(x)) == x,
        ls.len() > 0 ==> join_spaced(ls.push(x)) == join_spaced(ls) + seq![' '] + x,
{
    assert(ls.push(x).drop_last() == ls);
    if ls.len() == 0 {
        assert(ls.push(x)[0] == x);
    }
}

proof fn lemma_wrap_state(ws: Seq<Seq<char>>, max: nat)
    requires
        forall|i: int| 0 <= i < ws.len() ==> is_word(#[trigger] ws[i]),
    ensures
        ({
            let st = wrap_state(ws, max);
            &&& ws.len() == 0 ==> st.0.len() == 0 && st.1.len() == 0
            &&& ws.len() > 0 ==> st.1.len() > 0 && join_spaced(st.0.push(st.1)) == join_spaced(ws)
            &&& forall|i: int| 0 <= i < st.0.len() ==> #[trigger] st.0[i].len() > 0
            &&& forall|i: int| 0 <= i < st.0.len() ==> line_fits(#[trigger] st.0[i], max)
            &&& ws.len() > 0 ==> line_fits(st.1, max)
        }),
    decreases ws.len(),
{
    if ws.len() > 0 {
        let ws0 = ws.drop_last();
        let w = ws.last();
        assert(is_word(ws[ws.len() - 1]));
        lemma_wrap_state(ws0, max);
        let st0 = wrap_state(ws0, max);
        let st = wrap_state(ws, max);
        assert(ws0.push(w) == ws);
        if ws0.len() > 0 {
            lemma_join_spaced_push(ws0, w);
        } else {
            lemma_join_spaced_push(ws0, w);
        }
        if st0.1.len() == 0 {
            lemma_join_spaced_push(st0.0, w);
        } else if utf8_len(st0.1) + 1 + utf8_len(w) <= max {
            let c = st0.1 + seq![' '] + w;
            lemma_join_spaced_push(st0.0, c);
            lemma_join_spaced_push(st0.0, st0.1);
            if st0.0.len() > 0 {
                assert(join_spaced(st0.0) + seq![' '] + c == join_spaced(st0.0) + seq![' ']
                    + st0.1 + seq![' '] + w);
            }
            lemma_utf8_len_concat(st0.1, seq![' ']);
            lemma_utf8_len_concat(st0.1 + seq![' '], w);
            assert(utf8_len(seq![' ']) == 1) by {
                assert(seq![' '].drop_last() == Seq::<char>::empty());
                assert((' ' as u32) == 32);
                assert(seq![' '].last() == ' ');
                assert(utf8_len(Seq::<char>::empty()) == 0);
            }
            assert(st.1 == c);
        } else {
            lemma_join_spaced_push(st0.0.push(st0.1), w);
            assert(st.0 == st0.0.push(st0.1));
            assert forall|i: int| 0 <= i < st.0.len() implies #[trigger] st.0[i].len() > 0
                && line_fits(st.0[i], max) by {
                if i < st0.0.len() {
                    assert(st.0[i] == st0.0[i]);
                }
            }
        }
    }
}

/// Wrapping always gives at least one line; a text without words gives
/// exactly one empty line, and a text with words gives no empty line.
pub proof fn lemma_wrap_text_nonempty(text: Seq<char>, max_chars: nat)
    ensures
        wrap_text_spec(text, max_chars).len() >= 1,
        words(text).len() == 0 ==> wrap_text_spec(text, max_chars) == seq![Seq::<char>::empty()],
        words(text).len() > 0 ==> forall|i: int|
            0 <= i < wrap_text_spec(text, max_chars).len() ==> (
            #[trigger] wrap_text_spec(text, max_chars)[i]).len() > 0,
{
    lemma_split_state_words(text);
    let ws = words(text);
    lemma_wrap_state(ws, max_chars);
    let st = wrap_state(ws, max_chars);
    if ws.len() > 0 {
        assert forall|i: int|
            0 <= i < wrap_text_spec(text, max_chars).len() implies (
            #[trigger] wrap_text_spec(text, max_chars)[i]).len() > 0 by {
            if i < st.0.len() {
                assert(wrap_text_spec(text, max_chars)[i] == st.0[i]);
            }
        }
    }
}

/// Every wrapped line is at most `max_chars` bytes long or is a single
/// word that alone exceeds the limit.
pub proof fn lemma_wrap_text_lines_fit(text: Seq<char>, max_chars: nat)
    ensures
        forall|i: int|
            0 <= i < wrap_text_spec(text, max_chars).len() ==> line_fits(
                #[trigger] wrap_text_spec(text, max_chars)[i],
                max_chars,
            ),
{
    lemma_split_state_words(text);
    let ws = words(text);
    lemma_wrap_state(ws, max_chars);
    let st = wrap_state(ws, max_chars);
    assert forall|i: int| 0 <= i < wrap_text_spec(text, max_chars).len() implies line_fits(
        #[trigger] wrap_text_spec(text, max_chars)[i],
        max_chars,
    ) by {
        if ws.len() == 0 {
            assert(utf8_len(wrap_text_spec(text, max_chars)[i]) == 0);
        } else if i < st.0.len() {
            assert(wrap_text_spec(text, max_chars)[i] == st.0[i]);
        }
    }
}

/// Wrapping neither drops, adds nor reorders words: the lines joined with
/// single spaces are the words of the text joined with single spaces.
pub proof fn lemma_wrap_text_keeps_words(text: Seq<char>, max_chars: nat)
    ensures
        join_spaced(wrap_text_spec(text, max_chars)) == join_spaced(words(text)),
{
    lemma_split_state_words(text);
    let ws = words(text);
    lemma_wrap_state(ws, max_chars);
    if ws.len() == 0 {
        let r = wrap_text_spec(text, max_chars);
        assert(r == seq![Seq::<char>::empty()]);
        assert(r[0] == Seq::<char>::empty());
    }
}

} // verus!
