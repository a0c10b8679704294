//! File names from metadata: author formatting, sanitization and the
//! placeholder template.
//!
//! A template is read left to right. `{name}` stands for the value that the
//! context holds under `name`; where the context holds none, the placeholder
//! is written out as it stands. `{{` and `}}` each write one literal brace,
//! and a lone `}` is written as it is. A placeholder that is still open at the
//! end of the template is read as if a `}` closed it there.

use vstd::prelude::*;
use vstd::hash_map::StringHashMap;
use vstd::string::StringExecFns;
use crate::biblio::{BiblioResponse, Metadata};
use crate::text::{chars_of, push_char};

verus! {

/// Whether a file system is likely to refuse `c` in a file name.
pub open spec fn is_hostile(c: char) -> bool {
    c == '<' || c == '>' || c == ':' || c == '"' || c == '/' || c == '\\' || c == '|' || c == '?'
        || c == '*'
}

/// `c`, or `_` in its place where `c` is hostile.
pub open spec fn sanitized_char(c: char) -> char {
    if is_hostile(c) {
        '_'
    } else {
        c
    }
}

/// `s` with every hostile character replaced by `_`.
pub open spec fn sanitized(s: Seq<char>) -> Seq<char> {
    s.map_values(|c: char| sanitized_char(c))
}

/// Whether `s` holds no hostile character.
pub open spec fn is_clean(s: Seq<char>) -> bool {
    forall|i: int| 0 <= i < s.len() ==> !is_hostile(#[trigger] s[i])
}

/// Sanitizes a string for use in a file name.
pub fn sanitize_filename(s: &str) -> (out: String)
    ensures
        out@ == sanitized(s@),
{
    let mut out = String::new();
    for c in it: s.chars()
        invariant
            it.seq() == s@,
            out@ == sanitized(s@.take(it.index() as int)),
    {
        let kept = match c {
            '<' | '>' | ':' | '"' | '/' | '\\' | '|' | '?' | '*' => '_',
            _ => c,
        };
        push_char(&mut out, kept);
        assert(s@.take(it.index() + 1) == s@.take(it.index() as int).push(c));
    }
    out
}

/// The values that a template's placeholders stand for, by name. Every value
/// is held sanitized.
pub struct RenderContext {
    values: StringHashMap<String>,
}

impl View for RenderContext {
    type V = Map<Seq<char>, Seq<char>>;

    closed spec fn view(&self) -> Map<Seq<char>, Seq<char>> {
        self.values@.map_values(|v: String| v@)
    }
}

impl RenderContext {
    #[verifier::type_invariant]
    spec fn values_are_clean(&self) -> bool {
        forall|name: Seq<char>| #[trigger]
            self.values@.contains_key(name) ==> is_clean(self.values@[name]@)
    }

    /// A context that knows no placeholder.
    pub fn new() -> (ctx: RenderContext)
        ensures
            ctx@ == Map::<Seq<char>, Seq<char>>::empty(),
    {
        let ctx = RenderContext { values: StringHashMap::new() };
        assert(ctx@ =~= Map::<Seq<char>, Seq<char>>::empty());
        ctx
    }

    /// Lets `name` stand for `value`, sanitized. An earlier value of `name` is
    /// replaced.
    pub fn set(&mut self, name: &str, value: &str)
        ensures
            final(self)@ == old(self)@.insert(name@, sanitized(value@)),
    {
        proof {
            use_type_invariant(&*self);
        }
        let clean = sanitize_filename(value);
        let mut values = StringHashMap::new();
        core::mem::swap(&mut self.values, &mut values);
        values.insert(name.to_owned(), clean);
        core::mem::swap(&mut self.values, &mut values);
        assert(self@ =~= old(self)@.insert(name@, sanitized(value@)));
    }

    /// The value that `name` stands for, if any. It holds no hostile character.
    pub fn get(&self, name: &str) -> (found: Option<&String>)
        ensures
            match found {
                Some(v) => self@.contains_key(name@) && v@ == self@[name@] && is_clean(v@),
                None => !self@.contains_key(name@),
            },
    {
        proof {
            use_type_invariant(self);
        }
        self.values.get(name)
    }
}

/// The position of the first `}` of `t` at or after `from`, or the length of
/// `t` where there is none.
pub open spec fn name_end(t: Seq<char>, from: int) -> int
    decreases t.len() - from,
{
    if from < 0 || from >= t.len() {
        t.len() as int
    } else if t[from] == '}' {
        from
    } else {
        name_end(t, from + 1)
    }
}

/// What a placeholder called `name` is replaced by: its value in `ctx`, or
/// where `ctx` has none, the placeholder itself between braces.
pub open spec fn substituted(name: Seq<char>, ctx: Map<Seq<char>, Seq<char>>) -> Seq<char> {
    if ctx.contains_key(name) {
        ctx[name]
    } else {
        seq!['{'] + name + seq!['}']
    }
}

/// What the part of template `t` from position `i` on renders to under `ctx`.
pub open spec fn rendered_from(t: Seq<char>, i: int, ctx: Map<Seq<char>, Seq<char>>) -> Seq<char>
    decreases t.len() - i,
{
    if i < 0 || i >= t.len() {
        Seq::empty()
    } else if t[i] == '{' {
        if i + 1 < t.len() && t[i + 1] == '{' {
            seq!['{'] + rendered_from(t, i + 2, ctx)
        } else {
            let end = name_end(t, i + 1);
            let next = if end < t.len() {
                end + 1
            } else {
                end
            };
            proof {
                lemma_name_end_bounds(t, i + 1);
            }
            substituted(t.subrange(i + 1, end), ctx) + rendered_from(t, next, ctx)
        }
    } else if t[i] == '}' {
        if i + 1 < t.len() && t[i + 1] == '}' {
            seq!['}'] + rendered_from(t, i + 2, ctx)
        } else {
            seq!['}'] + rendered_from(t, i + 1, ctx)
        }
    } else {
        seq![t[i]] + rendered_from(t, i + 1, ctx)
    }
}

/// What template `t` renders to under `ctx`.
pub open spec fn rendered(t: Seq<char>, ctx: Map<Seq<char>, Seq<char>>) -> Seq<char> {
    rendered_from(t, 0, ctx)
}

/// A name ends at or after the place where it starts, within the template,
/// and holds no `}`.
pub proof fn lemma_name_end_bounds(t: Seq<char>, from: int)
    requires
        0 <= from <= t.len(),
    ensures
        from <= name_end(t, from) <= t.len(),
        name_end(t, from) < t.len() ==> t[name_end(t, from)] == '}',
        forall|k: int| from <= k < name_end(t, from) ==> t[k] != '}',
    decreases t.len() - from,
{
    if from < t.len() && t[from] != '}' {
        lemma_name_end_bounds(t, from + 1);
    }
}

/// Whether `s` holds neither `{` nor `}`.
pub open spec fn is_plain(s: Seq<char>) -> bool {
    forall|i: int| 0 <= i < s.len() ==> #[trigger] s[i] != '{' && s[i] != '}'
}

/// Whether `s` can stand between braces as a placeholder's name: it holds no
/// `}` and does not start with `{`.
pub open spec fn is_name(s: Seq<char>) -> bool {
    &&& forall|i: int| 0 <= i < s.len() ==> #[trigger] s[i] != '}'
    &&& s.len() > 0 ==> s[0] != '{'
}

/// Where a name ends does not depend on what stands before it.
proof fn lemma_name_end_skip(t: Seq<char>, k: int, from: int)
    requires
        0 <= k <= t.len(),
        0 <= from,
    ensures
        name_end(t.skip(k), from) == name_end(t, from + k) - k,
    decreases t.len() - k - from,
{
    if from < t.len() - k && t[from + k] != '}' {
        lemma_name_end_skip(t, k, from + 1);
    }
}

/// Rendering from a position on is rendering what is left of the template
/// there: what stands before has no effect on what follows.
pub proof fn lemma_rendered_from_skip(
    t: Seq<char>,
    k: int,
    i: int,
    ctx: Map<Seq<char>, Seq<char>>,
)
    requires
        0 <= k <= t.len(),
        0 <= i,
    ensures
        rendered_from(t.skip(k), i, ctx) == rendered_from(t, i + k, ctx),
    decreases t.len() - k - i,
{
    let s = t.skip(k);
    if i < s.len() {
        if s[i] == '{' {
            if i + 1 < s.len() && s[i + 1] == '{' {
                lemma_rendered_from_skip(t, k, i + 2, ctx);
            } else {
                lemma_name_end_skip(t, k, i + 1);
                lemma_name_end_bounds(t, i + 1 + k);
                let end = name_end(t, i + 1 + k);
                let next = if end < t.len() {
                    end + 1
                } else {
                    end
                };
                assert(s.subrange(i + 1, end - k) =~= t.subrange(i + 1 + k, end));
                lemma_rendered_from_skip(t, k, next - k, ctx);
            }
        } else if s[i] == '}' {
            if i + 1 < s.len() && s[i + 1] == '}' {
                lemma_rendered_from_skip(t, k, i + 2, ctx);
            } else {
                lemma_rendered_from_skip(t, k, i + 1, ctx);
            }
        } else {
            lemma_rendered_from_skip(t, k, i + 1, ctx);
        }
    }
}

/// Text without braces is copied as it stands, whatever the context holds:
/// only what stands between braces is ever replaced.
pub proof fn lemma_plain_text_is_kept(
    text: Seq<char>,
    rest: Seq<char>,
    ctx: Map<Seq<char>, Seq<char>>,
)
    requires
        is_plain(text),
    ensures
        rendered(text + rest, ctx) == text + rendered(rest, ctx),
    decreases text.len(),
{
    let t = text + rest;
    if text.len() == 0 {
        assert(t =~= rest);
    } else {
        let tail = text.drop_first();
        assert(t[0] == text[0]);
        assert(t.skip(1) =~= tail + rest);
        lemma_rendered_from_skip(t, 1, 0, ctx);
        assert(is_plain(tail)) by {
            assert forall|i: int| 0 <= i < tail.len() implies #[trigger] tail[i] != '{' && tail[i]
                != '}' by {
                assert(tail[i] == text[i + 1]);
            }
        }
        lemma_plain_text_is_kept(tail, rest, ctx);
        assert(text =~= seq![text[0]] + tail);
        assert(rendered(t, ctx) =~= text + rendered(rest, ctx));
    }
}

/// `{{` writes one `{`.
pub proof fn lemma_double_open_is_literal(rest: Seq<char>, ctx: Map<Seq<char>, Seq<char>>)
    ensures
        rendered(seq!['{', '{'] + rest, ctx) == seq!['{'] + rendered(rest, ctx),
{
    let t = seq!['{', '{'] + rest;
    assert(t.skip(2) =~= rest);
    lemma_rendered_from_skip(t, 2, 0, ctx);
}

/// `}}` writes one `}`.
pub proof fn lemma_double_close_is_literal(rest: Seq<char>, ctx: Map<Seq<char>, Seq<char>>)
    ensures
        rendered(seq!['}', '}'] + rest, ctx) == seq!['}'] + rendered(rest, ctx),
{
    let t = seq!['}', '}'] + rest;
    assert(t.skip(2) =~= rest);
    lemma_rendered_from_skip(t, 2, 0, ctx);
}

/// A `}` that no second `}` follows is written as it is.
pub proof fn lemma_lone_close_is_literal(rest: Seq<char>, ctx: Map<Seq<char>, Seq<char>>)
    requires
        rest.len() > 0 ==> rest[0] != '}',
    ensures
        rendered(seq!['}'] + rest, ctx) == seq!['}'] + rendered(rest, ctx),
{
    let t = seq!['}'] + rest;
    assert(t.skip(1) =~= rest);
    lemma_rendered_from_skip(t, 1, 0, ctx);
}

/// A placeholder is replaced by what its name stands for, or kept where the
/// name stands for nothing, and rendering goes on behind its closing brace.
pub proof fn lemma_placeholder_is_substituted(
    name: Seq<char>,
    rest: Seq<char>,
    ctx: Map<Seq<char>, Seq<char>>,
)
    requires
        is_name(name),
    ensures
        rendered(seq!['{'] + name + seq!['}'] + rest, ctx) == substituted(name, ctx) + rendered(
            rest,
            ctx,
        ),
{
    let t = seq!['{'] + name + seq!['}'] + rest;
    let end = name.len() as int + 1;
    lemma_name_end_bounds(t, 1);
    assert(name_end(t, 1) == end) by {
        assert(t[end] == '}');
        assert forall|k: int| 1 <= k < end implies t[k] != '}' by {
            assert(t[k] == name[k - 1]);
        }
        if name_end(t, 1) > end {
            assert(t[end] != '}');
        }
    }
    assert(t.subrange(1, end) =~= name);
    assert(t.skip(end + 1) =~= rest);
    if name.len() > 0 {
        assert(t[1] == name[0]);
    }
    lemma_rendered_from_skip(t, end + 1, 0, ctx);
}

/// A placeholder whose name the context does not hold is written out
/// unchanged.
pub proof fn lemma_unknown_placeholder_is_kept(name: Seq<char>, ctx: Map<Seq<char>, Seq<char>>)
    requires
        is_name(name),
        !ctx.contains_key(name),
    ensures
        rendered(seq!['{'] + name + seq!['}'], ctx) == seq!['{'] + name + seq!['}'],
{
    let t = seq!['{'] + name + seq!['}'];
    lemma_placeholder_is_substituted(name, Seq::empty(), ctx);
    assert(t + Seq::<char>::empty() =~= t);
    assert(substituted(name, ctx) + rendered(Seq::<char>::empty(), ctx) =~= t);
}

/// A name between doubled braces is escaped, not substituted: it is written
/// between single braces, whatever the context holds under it.
pub proof fn lemma_escaped_placeholder_is_literal(name: Seq<char>, ctx: Map<Seq<char>, Seq<char>>)
    requires
        is_plain(name),
    ensures
        rendered(seq!['{', '{'] + name + seq!['}', '}'], ctx) == seq!['{'] + name + seq!['}'],
{
    let close = seq!['}', '}'];
    lemma_double_open_is_literal(name + close, ctx);
    lemma_plain_text_is_kept(name, close, ctx);
    lemma_double_close_is_literal(Seq::empty(), ctx);
    assert(close + Seq::<char>::empty() =~= close);
    assert(seq!['{', '{'] + name + close =~= seq!['{', '{'] + (name + close));
    assert(seq!['{'] + (name + (seq!['}'] + Seq::<char>::empty())) =~= seq!['{'] + name
        + seq!['}']);
}

/// Sanitizing keeps the length, leaves no hostile character, and changes
/// nothing in a text that has none.
pub proof fn lemma_sanitized_is_clean(s: Seq<char>)
    ensures
        sanitized(s).len() == s.len(),
        is_clean(sanitized(s)),
        is_clean(s) ==> sanitized(s) == s,
        forall|i: int|
            0 <= i < s.len() ==> #[trigger] sanitized(s)[i] == (if is_hostile(s[i]) {
                '_'
            } else {
                s[i]
            }),
{
    if is_clean(s) {
        assert(sanitized(s) =~= s);
    }
}

/// Every value that metadata puts into a context is sanitized, and the three
/// names `authors`, `title` and `year` are all that the context holds.
pub proof fn lemma_context_is_sanitized(m: Metadata)
    ensures
        forall|name: Seq<char>| #[trigger]
            context_of(m).contains_key(name) ==> is_clean(context_of(m)[name]),
        forall|name: Seq<char>| #[trigger]
            context_of(m).contains_key(name) <==> name == "authors"@ || name == "title"@ || name
                == "year"@,
        context_of(m)["title"@] == sanitized(title_text(m.title)),
        context_of(m)["year"@] == sanitized(year_text(m.year)),
        context_of(m)["authors"@] == sanitized(authors_text(m.authors)),
{
    reveal_strlit("authors");
    reveal_strlit("title");
    reveal_strlit("year");
    lemma_sanitized_is_clean(authors_text(m.authors));
    lemma_sanitized_is_clean(title_text(m.title));
    lemma_sanitized_is_clean(year_text(m.year));
    assert("authors"@ != "title"@) by {
        assert("authors"@.len() != "title"@.len());
    }
    assert("authors"@ != "year"@) by {
        assert("authors"@.len() != "year"@.len());
    }
    assert("title"@ != "year"@) by {
        assert("title"@.len() != "year"@.len());
    }
}

/// Processes a format string, replacing placeholders with their values.
pub fn process_format_string(format_str: &str, replacements: &RenderContext) -> (out: String)
    ensures
        out@ == rendered(format_str@, replacements@),
{
    let t = chars_of(format_str);
    let n = t.len();
    let ghost ctx = replacements@;
    let mut out = String::new();
    let mut i: usize = 0;
    while i < n
        invariant
            n == t.len(),
            i <= n,
            ctx == replacements@,
            out@ + rendered_from(t@, i as int, ctx) == rendered_from(t@, 0, ctx),
        decreases n - i,
    {
        let c = t[i];
        let ghost before = out@;
        if c == '{' {
            if i + 1 < n && t[i + 1] == '{' {
                push_char(&mut out, '{');
                i = i + 2;
            } else {
                let start = i + 1;
                let mut name = String::new();
                let mut j = start;
                while j < n && t[j] != '}'
                    invariant
                        n == t.len(),
                        start <= j <= n,
                        name@ == t@.subrange(start as int, j as int),
                        name_end(t@, start as int) == name_end(t@, j as int),
                    decreases n - j,
                {
                    push_char(&mut name, t[j]);
                    j = j + 1;
                    assert(t@.subrange(start as int, j as int) == t@.subrange(
                        start as int,
                        j - 1,
                    ).push(t@[j - 1]));
                }
                assert(j as int == name_end(t@, start as int));
                match replacements.get(name.as_str()) {
                    Some(value) => {
                        out.append(value.as_str());
                    },
                    None => {
                        push_char(&mut out, '{');
                        out.append(name.as_str());
                        push_char(&mut out, '}');
                    },
                }
                assert(out@ == before + substituted(name@, ctx));
                if j < n {
                    i = j + 1;
                } else {
                    i = j;
                }
            }
        } else if c == '}' {
            push_char(&mut out, '}');
            if i + 1 < n && t[i + 1] == '}' {
                i = i + 2;
            } else {
                i = i + 1;
            }
        } else {
            push_char(&mut out, c);
            i = i + 1;
        }
    }
    out
}

/// How a list of authors is written in a file name: none or an absent list
/// as "Unknown Author", one as it is, two joined by " & ", and of three or
/// more the first followed by " et al.".
pub open spec fn authors_text(authors: Option<Seq<Seq<char>>>) -> Seq<char> {
    match authors {
        None => "Unknown Author"@,
        Some(list) => if list.len() == 0 {
            "Unknown Author"@
        } else if list.len() == 1 {
            list[0]
        } else if list.len() == 2 {
            list[0] + " & "@ + list[1]
        } else {
            list[0] + " et al."@
        },
    }
}

/// The title as written in a file name: "Untitled" where there is none.
pub open spec fn title_text(title: Option<Seq<char>>) -> Seq<char> {
    match title {
        Some(t) => t,
        None => "Untitled"@,
    }
}

/// The year as written in a file name: "Unknown Year" where there is none.
pub open spec fn year_text(year: Option<Seq<char>>) -> Seq<char> {
    match year {
        Some(y) => y,
        None => "Unknown Year"@,
    }
}

/// The context that metadata `m` gives: its authors, title and year, each
/// formatted and sanitized, under the names `authors`, `title` and `year`.
pub open spec fn context_of(m: Metadata) -> Map<Seq<char>, Seq<char>> {
    Map::<Seq<char>, Seq<char>>::empty().insert(
        "authors"@,
        sanitized(authors_text(m.authors)),
    ).insert("title"@, sanitized(title_text(m.title))).insert(
        "year"@,
        sanitized(year_text(m.year)),
    )
}

/// The file name, without extension, that template `t` gives for metadata `m`.
pub open spec fn filename_text(m: Metadata, t: Seq<char>) -> Seq<char> {
    rendered(t, context_of(m))
}

/// Formats a list of authors for a file name.
pub fn format_authors(authors: &Option<Vec<String>>) -> (out: String)
    ensures
        out@ == authors_text(
            match *authors {
                Some(list) => Some(crate::biblio::texts(list@)),
                None => None,
            },
        ),
{
    match authors {
        None => "Unknown Author".to_string(),
        Some(list) => {
            if list.len() == 0 {
                "Unknown Author".to_string()
            } else if list.len() == 1 {
                list[0].clone()
            } else if list.len() == 2 {
                let mut out = list[0].clone();
                out.append(" & ");
                out.append(list[1].as_str());
                out
            } else {
                let mut out = list[0].clone();
                out.append(" et al.");
                out
            }
        },
    }
}

impl RenderContext {
    /// The context of one document's metadata.
    pub fn from_metadata(data: &BiblioResponse) -> (ctx: RenderContext)
        ensures
            ctx@ == context_of(data@),
    {
        let authors = format_authors(&data.authors);
        let title = match &data.title {
            Some(t) => t.clone(),
            None => "Untitled".to_string(),
        };
        let year = match &data.year {
            Some(y) => y.clone(),
            None => "Unknown Year".to_string(),
        };
        let mut ctx = RenderContext::new();
        ctx.set("authors", authors.as_str());
        ctx.set("title", title.as_str());
        ctx.set("year", year.as_str());
        ctx
    }
}

/// Formats bibliographic data according to a template string.
pub fn format_filename(data: &BiblioResponse, format_str: &str) -> (out: String)
    ensures
        out@ == filename_text(data@, format_str@),
{
    let replacements = RenderContext::from_metadata(data);
    process_format_string(format_str, &replacements)
}

} // verus!
