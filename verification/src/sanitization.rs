//! Making untrusted text safe to pass on: escaping for SQL and JSON, removal
//! of control characters, safe file names and paths, Unicode normal forms.

use crate::errors::SharedError;
use crate::text::{
    byte_len, char_is_control, char_width, chars_occur_at, contains, from_chars, is_control,
    lemma_utf8_len_ascii, lemma_utf8_len_bounds, lemma_utf8_len_concat, lemma_utf8_len_first,
    owned, push_all, push_str, replace_char, replace_char_in, replace_text, replace_text_in,
    slice_chars, split_chars, split_on, to_chars, utf8_len, views, width_of,
};
use vstd::prelude::*;

verus! {

// ---------------------------------------------------------------------------
// Escaping
// ---------------------------------------------------------------------------

/// A text with `\`, `%` and `_` each preceded by a backslash.
pub open spec fn sql_like_escaped(s: Seq<char>) -> Seq<char> {
    replace_char(replace_char(replace_char(s, '\\', "\\\\"@), '%', "\\%"@), '_', "\\_"@)
}

/// Escapes the characters that have a meaning in an SQL `LIKE` pattern.
pub fn escape_sql_like(input: &str) -> (r: String)
    ensures
        r@ == sql_like_escaped(input@),
{
    let v = to_chars(input);
    let a = replace_char_in(&v, '\\', &to_chars("\\\\"));
    let b = replace_char_in(&a, '%', &to_chars("\\%"));
    let c = replace_char_in(&b, '_', &to_chars("\\_"));
    from_chars(&c)
}

/// A text without `--`, `/*`, `*/` and `;`, removed in this order, and with
/// every single quote doubled.
pub open spec fn sql_input_cleaned(s: Seq<char>) -> Seq<char> {
    replace_char(
        replace_char(
            replace_text(
                replace_text(replace_text(s, "--"@, Seq::empty()), "/*"@, Seq::empty()),
                "*/"@,
                Seq::empty(),
            ),
            ';',
            Seq::empty(),
        ),
        '\'',
        "''"@,
    )
}

/// Removes comment markers and statement separators and doubles single
/// quotes. This is no substitute for parameterized queries.
pub fn sanitize_sql_input(input: &str) -> (r: String)
    ensures
        r@ == sql_input_cleaned(input@),
{
    let empty: Vec<char> = Vec::new();
    let dashes = to_chars("--");
    let open = to_chars("/*");
    let close = to_chars("*/");
    proof {
        reveal_strlit("--");
        reveal_strlit("/*");
        reveal_strlit("*/");
    }
    let v = to_chars(input);
    let a = replace_text_in(&v, &dashes, &empty);
    let b = replace_text_in(&a, &open, &empty);
    let c = replace_text_in(&b, &close, &empty);
    let d = replace_char_in(&c, ';', &empty);
    let e = replace_char_in(&d, '\'', &to_chars("''"));
    from_chars(&e)
}

/// A text with `\`, `"`, line feed, carriage return and tab written as JSON
/// escapes, the backslash first.
pub open spec fn json_escaped(s: Seq<char>) -> Seq<char> {
    replace_char(
        replace_char(
            replace_char(replace_char(replace_char(s, '\\', "\\\\"@), '"', "\\\""@), '\n', "\\n"@),
            '\r',
            "\\r"@,
        ),
        '\t',
        "\\t"@,
    )
}

/// Escapes a text for use inside a JSON string.
pub fn escape_json_string(input: &str) -> (r: String)
    ensures
        r@ == json_escaped(input@),
{
    let v = to_chars(input);
    let a = replace_char_in(&v, '\\', &to_chars("\\\\"));
    let b = replace_char_in(&a, '"', &to_chars("\\\""));
    let c = replace_char_in(&b, '\n', &to_chars("\\n"));
    let d = replace_char_in(&c, '\r', &to_chars("\\r"));
    let e = replace_char_in(&d, '\t', &to_chars("\\t"));
    from_chars(&e)
}

// ---------------------------------------------------------------------------
// Control characters
// ---------------------------------------------------------------------------

/// Tab, line feed and carriage return are the control characters that stay.
pub open spec fn is_removed_control(c: char) -> bool {
    is_control(c) && c != '\t' && c != '\n' && c != '\r'
}

/// A text without its control characters, but for tab, line feed and
/// carriage return.
pub open spec fn without_controls(s: Seq<char>) -> Seq<char>
    decreases s.len(),
{
    if s.len() == 0 {
        s
    } else if is_removed_control(s.last()) {
        without_controls(s.drop_last())
    } else {
        without_controls(s.drop_last()).push(s.last())
    }
}

/// Removes the control characters, but for tab, line feed and carriage return.
pub fn remove_control_characters(input: &str) -> (r: String)
    ensures
        r@ == without_controls(input@),
{
    let v = to_chars(input);
    let mut out: Vec<char> = Vec::new();
    let mut i: usize = 0;
    assert(v@.take(0) =~= Seq::<char>::empty());
    while i < v.len()
        invariant
            i <= v.len(),
            out@ == without_controls(v@.take(i as int)),
        decreases v.len() - i,
    {
        let c = v[i];
        assert(v@.take(i + 1).drop_last() =~= v@.take(i as int));
        if c == ' ' || c == '\t' || c == '\n' || c == '\r' || !char_is_control(c) {
            out.push(c);
        }
        i += 1;
    }
    assert(v@.take(v.len() as int) =~= v@);
    from_chars(&out)
}

// ---------------------------------------------------------------------------
// Truncation
// ---------------------------------------------------------------------------

/// The longest prefix of `s` that takes at most `budget` bytes.
pub open spec fn byte_prefix(s: Seq<char>, budget: nat) -> Seq<char>
    decreases s.len(),
{
    if s.len() == 0 || char_width(s[0]) > budget {
        seq![]
    } else {
        seq![s[0]] + byte_prefix(s.skip(1), (budget - char_width(s[0])) as nat)
    }
}

/// A prefix within a budget of bytes takes no more bytes than the budget.
pub proof fn lemma_byte_prefix_len(s: Seq<char>, budget: nat)
    ensures
        utf8_len(byte_prefix(s, budget)) <= budget,
    decreases s.len(),
{
    if s.len() == 0 || char_width(s[0]) > budget {
        assert(utf8_len(Seq::<char>::empty()) == 0);
    } else {
        let rest = byte_prefix(s.skip(1), (budget - char_width(s[0])) as nat);
        lemma_byte_prefix_len(s.skip(1), (budget - char_width(s[0])) as nat);
        let p = seq![s[0]] + rest;
        lemma_utf8_len_first(p);
        assert(p.skip(1) =~= rest);
    }
}

pub(crate) fn take_bytes(v: &Vec<char>, budget: usize) -> (out: Vec<char>)
    ensures
        out@ == byte_prefix(v@, budget as nat),
{
    let mut out: Vec<char> = Vec::new();
    let mut left: usize = budget;
    let mut i: usize = 0;
    assert(v@.skip(0) == v@);
    while i < v.len() && width_of(v[i]) <= left
        invariant
            i <= v.len(),
            out@ + byte_prefix(v@.skip(i as int), left as nat) == byte_prefix(v@, budget as nat),
        decreases v.len() - i,
    {
        let ghost before = out@;
        assert(v@.skip(i as int).skip(1) == v@.skip(i + 1));
        out.push(v[i]);
        left -= width_of(v[i]);
        assert(out@ + byte_prefix(v@.skip(i + 1), left as nat) == before + (seq![v@[i as int]]
            + byte_prefix(v@.skip(i + 1), left as nat)));
        i += 1;
    }
    assert(out@ + Seq::<char>::empty() == out@);
    out
}

/// A text cut to at most `max_length` bytes: the text itself where it fits,
/// and otherwise its longest prefix of at most `max_length - 3` bytes (of no
/// bytes where `max_length` is under 3), followed by three dots.
pub open spec fn truncated(s: Seq<char>, max_length: usize) -> Seq<char> {
    if utf8_len(s) <= max_length {
        s
    } else {
        byte_prefix(s, if max_length >= 3 {
            (max_length - 3) as nat
        } else {
            0
        }) + "..."@
    }
}

/// Cuts a text to a number of bytes, never inside a character, and marks the
/// cut with three dots.
pub fn truncate_string(input: &str, max_length: usize) -> (r: String)
    ensures
        r@ == truncated(input@, max_length),
        max_length >= 3 ==> utf8_len(r@) <= max_length,
{
    if byte_len(input) <= max_length {
        return owned(input);
    }
    let budget: usize = if max_length >= 3 {
        max_length - 3
    } else {
        0
    };
    let v = to_chars(input);
    let mut out = take_bytes(&v, budget);
    proof {
        reveal_strlit("...");
        lemma_byte_prefix_len(v@, budget as nat);
        lemma_utf8_len_ascii("..."@);
        lemma_utf8_len_concat(out@, "..."@);
    }
    push_str(&mut out, "...");
    from_chars(&out)
}

// ---------------------------------------------------------------------------
// File names
// ---------------------------------------------------------------------------

/// Characters that never stay in a file name.
pub open spec fn is_dropped_from_filename(c: char) -> bool {
    c == '/' || c == '\\' || c == '\0' || is_control(c)
}

/// Characters that a file name shows as an underscore.
pub open spec fn is_replaced_in_filename(c: char) -> bool {
    c == '<' || c == '>' || c == ':' || c == '"' || c == '|' || c == '?' || c == '*'
}

/// The characters of a file name that stay, the reserved ones as underscores.
pub open spec fn filename_chars(s: Seq<char>) -> Seq<char>
    decreases s.len(),
{
    if s.len() == 0 {
        s
    } else if is_dropped_from_filename(s.last()) {
        filename_chars(s.drop_last())
    } else if is_replaced_in_filename(s.last()) {
        filename_chars(s.drop_last()).push('_')
    } else {
        filename_chars(s.drop_last()).push(s.last())
    }
}

/// `s` without leading dots and spaces.
pub open spec fn strip_leading_dots(s: Seq<char>) -> Seq<char>
    decreases s.len(),
{
    if s.len() > 0 && (s[0] == '.' || s[0] == ' ') {
        strip_leading_dots(s.skip(1))
    } else {
        s
    }
}

/// `s` without trailing dots and spaces.
pub open spec fn strip_trailing_dots(s: Seq<char>) -> Seq<char>
    decreases s.len(),
{
    if s.len() > 0 && (s.last() == '.' || s.last() == ' ') {
        strip_trailing_dots(s.drop_last())
    } else {
        s
    }
}

/// The safe form of a file name: separators, null and control characters
/// dropped, reserved characters as underscores, no dots or spaces at either
/// end, `file` where nothing is left, and at most 255 bytes.
pub open spec fn safe_filename(s: Seq<char>) -> Seq<char> {
    let stripped = strip_trailing_dots(strip_leading_dots(filename_chars(s)));
    if stripped.len() == 0 {
        "file"@
    } else {
        byte_prefix(stripped, 255)
    }
}

/// Makes a file name safe for the file system.
pub fn sanitize_filename(filename: &str) -> (r: String)
    ensures
        r@ == safe_filename(filename@),
        0 < utf8_len(r@) <= 255,
{
    let v = to_chars(filename);
    let mut kept: Vec<char> = Vec::new();
    let mut i: usize = 0;
    assert(v@.take(0) =~= Seq::<char>::empty());
    while i < v.len()
        invariant
            i <= v.len(),
            kept@ == filename_chars(v@.take(i as int)),
        decreases v.len() - i,
    {
        let c = v[i];
        assert(v@.take(i + 1).drop_last() =~= v@.take(i as int));
        if c != '/' && c != '\\' && c != '\0' && !char_is_control(c) {
            if c == '<' || c == '>' || c == ':' || c == '"' || c == '|' || c == '?' || c == '*' {
                kept.push('_');
            } else {
                kept.push(c);
            }
        }
        i += 1;
    }
    assert(v@.take(v.len() as int) =~= v@);
    let n = kept.len();
    let mut a: usize = 0;
    assert(kept@.skip(0) == kept@);
    while a < n && (kept[a] == '.' || kept[a] == ' ')
        invariant
            a <= n,
            n == kept.len(),
            strip_leading_dots(kept@) == strip_leading_dots(kept@.skip(a as int)),
        decreases n - a,
    {
        assert(kept@.skip(a as int).skip(1) == kept@.skip(a + 1));
        a += 1;
    }
    let mut b: usize = n;
    assert(kept@.skip(a as int) == kept@.subrange(a as int, n as int));
    while b > a && (kept[b - 1] == '.' || kept[b - 1] == ' ')
        invariant
            a <= b <= n,
            n == kept.len(),
            strip_trailing_dots(strip_leading_dots(kept@)) == strip_trailing_dots(
                kept@.subrange(a as int, b as int),
            ),
        decreases b,
    {
        assert(kept@.subrange(a as int, b as int).drop_last() == kept@.subrange(a as int, b - 1));
        b -= 1;
    }
    if a == b {
        proof {
            reveal_strlit("file");
            lemma_utf8_len_ascii("file"@);
        }
        return owned("file");
    }
    let stripped = slice_chars(&kept, a, b);
    let cut = take_bytes(&stripped, 255);
    proof {
        lemma_byte_prefix_len(stripped@, 255);
        assert(cut@.len() > 0) by {
            assert(stripped@.len() > 0);
            assert(char_width(stripped@[0]) <= 255);
        }
        lemma_utf8_len_bounds(cut@);
    }
    from_chars(&cut)
}

// ---------------------------------------------------------------------------
// Paths
// ---------------------------------------------------------------------------
//
// Paths are texts whose parts are separated by `/`. A path that starts with
// `/` is absolute. As a sequence of components, an absolute path starts with
// the root, written `/`; a relative path that starts with the part `.` starts
// with `.`; after that come the parts that are neither empty nor `.`.

/// The part `.`, which stands for the directory itself.
pub open spec fn is_dot(part: Seq<char>) -> bool {
    part == seq!['.']
}

/// The part `..`, which stands for the parent directory.
pub open spec fn is_dot_dot(part: Seq<char>) -> bool {
    part == seq!['.', '.']
}

/// The parts that are neither empty nor `.`, in order.
pub open spec fn named_parts(parts: Seq<Seq<char>>) -> Seq<Seq<char>>
    decreases parts.len(),
{
    if parts.len() == 0 {
        seq![]
    } else {
        let rest = named_parts(parts.drop_last());
        if parts.last().len() == 0 || is_dot(parts.last()) {
            rest
        } else {
            rest.push(parts.last())
        }
    }
}

/// What a path starts with, as components: the root, the directory itself,
/// or nothing.
pub open spec fn path_head(path: Seq<char>) -> Seq<Seq<char>> {
    if path.len() > 0 && path[0] == '/' {
        seq![seq!['/']]
    } else if is_dot(split_on(path, '/')[0]) {
        seq![seq!['.']]
    } else {
        seq![]
    }
}

/// The components of a path.
pub open spec fn path_components(path: Seq<char>) -> Seq<Seq<char>> {
    path_head(path) + named_parts(split_on(path, '/'))
}

/// The components with every `..` resolved against the component before it,
/// where there is one, and every `.` dropped.
pub open spec fn resolved(components: Seq<Seq<char>>) -> Seq<Seq<char>>
    decreases components.len(),
{
    if components.len() == 0 {
        seq![]
    } else {
        let rest = resolved(components.drop_last());
        let c = components.last();
        if is_dot_dot(c) {
            if rest.len() > 0 {
                rest.drop_last()
            } else {
                rest
            }
        } else if is_dot(c) {
            rest
        } else {
            rest.push(c)
        }
    }
}

/// The path made of the given components, with one `/` between two of them
/// unless the first ends with one.
pub open spec fn joined(components: Seq<Seq<char>>) -> Seq<char>
    decreases components.len(),
{
    if components.len() == 0 {
        seq![]
    } else {
        let rest = joined(components.drop_last());
        if rest.len() > 0 && rest.last() != '/' {
            rest + seq!['/'] + components.last()
        } else {
            rest + components.last()
        }
    }
}

/// The normal form of a path: its components resolved and joined.
pub open spec fn normalized_path(path: Seq<char>) -> Seq<char> {
    joined(resolved(path_components(path)))
}

/// A relative path under a base directory.
pub open spec fn full_path(base_dir: Seq<char>, path: Seq<char>) -> Seq<char> {
    if base_dir.len() > 0 && base_dir.last() != '/' {
        base_dir + seq!['/'] + path
    } else {
        base_dir + path
    }
}

/// Whether `whole` starts with the components `front`.
pub open spec fn has_components(whole: Seq<Seq<char>>, front: Seq<Seq<char>>) -> bool {
    front.len() <= whole.len() && whole.take(front.len() as int) == front
}

/// Why a path may not be used under a base directory, if it may not: it
/// holds a null character, it is absolute, it holds two dots in a row, or
/// the resolved path does not start with the components of the base
/// directory.
pub open spec fn path_problem(path: Seq<char>, base_dir: Seq<char>) -> Option<Seq<char>> {
    if exists|i: int| 0 <= i < path.len() && path[i] == '\0' {
        Some("Path contains null bytes"@)
    } else if path.len() > 0 && path[0] == '/' {
        Some("Absolute paths are not allowed"@)
    } else if contains(path, seq!['.', '.']) {
        Some("Path traversal detected"@)
    } else if !has_components(
        resolved(path_components(full_path(base_dir, path))),
        path_components(base_dir),
    ) {
        Some("Path escapes base directory"@)
    } else {
        None
    }
}

fn part_is_dot(part: &Vec<char>) -> (b: bool)
    ensures
        b == is_dot(part@),
{
    let b = part.len() == 1 && part[0] == '.';
    proof {
        if b {
            assert(part@ =~= seq!['.']);
        } else if part.len() == 1 {
            assert(part@[0] != seq!['.'][0]);
        }
    }
    b
}

fn part_is_dot_dot(part: &Vec<char>) -> (b: bool)
    ensures
        b == is_dot_dot(part@),
{
    let b = part.len() == 2 && part[0] == '.' && part[1] == '.';
    proof {
        if b {
            assert(part@ =~= seq!['.', '.']);
        } else if part.len() == 2 {
            assert(part@[0] != seq!['.', '.'][0] || part@[1] != seq!['.', '.'][1]);
        }
    }
    b
}

fn components_of(path: &Vec<char>) -> (out: Vec<Vec<char>>)
    ensures
        views(out@) == path_components(path@),
{
    let parts = split_chars(path, '/');
    let mut out: Vec<Vec<char>> = Vec::new();
    if path.len() > 0 && path[0] == '/' {
        let mut root: Vec<char> = Vec::new();
        root.push('/');
        assert(root@ =~= seq!['/']);
        out.push(root);
    } else if part_is_dot(&parts[0]) {
        let mut dot: Vec<char> = Vec::new();
        dot.push('.');
        assert(dot@ =~= seq!['.']);
        out.push(dot);
    }
    proof {
        assert(views(parts@)[0] == parts@[0]@);
        assert(views(out@) =~= path_head(path@));
        assert(views(parts@).take(0) =~= Seq::<Seq<char>>::empty());
        assert(views(out@) =~= path_head(path@) + named_parts(views(parts@).take(0)));
    }
    let mut i: usize = 0;
    while i < parts.len()
        invariant
            i <= parts.len(),
            views(out@) == path_head(path@) + named_parts(views(parts@).take(i as int)),
        decreases parts.len() - i,
    {
        proof {
            let prefix = views(parts@).take(i + 1);
            assert(prefix.drop_last() =~= views(parts@).take(i as int));
            assert(prefix.last() == parts@[i as int]@);
        }
        if parts[i].len() > 0 && !part_is_dot(&parts[i]) {
            let part = slice_chars(&parts[i], 0, parts[i].len());
            proof {
                assert(part@ =~= parts@[i as int]@);
                assert(views(out@.push(part)) =~= views(out@).push(part@));
                assert(path_head(path@) + named_parts(views(parts@).take(i as int)).push(part@)
                    =~= (path_head(path@) + named_parts(views(parts@).take(i as int))).push(
                    part@,
                ));
            }
            out.push(part);
        }
        i += 1;
    }
    proof {
        assert(views(parts@).take(parts@.len() as int) =~= views(parts@));
    }
    out
}

fn resolve(components: &Vec<Vec<char>>) -> (out: Vec<Vec<char>>)
    ensures
        views(out@) == resolved(views(components@)),
{
    let mut out: Vec<Vec<char>> = Vec::new();
    let mut i: usize = 0;
    proof {
        assert(views(components@).take(0) =~= Seq::<Seq<char>>::empty());
        assert(views(out@) =~= Seq::<Seq<char>>::empty());
    }
    while i < components.len()
        invariant
            i <= components.len(),
            views(out@) == resolved(views(components@).take(i as int)),
        decreases components.len() - i,
    {
        proof {
            let prefix = views(components@).take(i + 1);
            assert(prefix.drop_last() =~= views(components@).take(i as int));
            assert(prefix.last() == components@[i as int]@);
        }
        let c = &components[i];
        if part_is_dot_dot(c) {
            if out.len() > 0 {
                let ghost before = views(out@);
                out.pop();
                assert(views(out@) =~= before.drop_last());
            }
        } else if !part_is_dot(c) {
            let part = slice_chars(c, 0, c.len());
            proof {
                assert(part@ =~= c@);
                assert(views(out@.push(part)) =~= views(out@).push(part@));
            }
            out.push(part);
        }
        i += 1;
    }
    proof {
        assert(views(components@).take(components@.len() as int) =~= views(components@));
    }
    out
}

fn join(components: &Vec<Vec<char>>) -> (out: Vec<char>)
    ensures
        out@ == joined(views(components@)),
{
    let mut out: Vec<char> = Vec::new();
    let mut i: usize = 0;
    proof {
        assert(views(components@).take(0) =~= Seq::<Seq<char>>::empty());
    }
    while i < components.len()
        invariant
            i <= components.len(),
            out@ == joined(views(components@).take(i as int)),
        decreases components.len() - i,
    {
        proof {
            let prefix = views(components@).take(i + 1);
            assert(prefix.drop_last() =~= views(components@).take(i as int));
            assert(prefix.last() == components@[i as int]@);
        }
        if out.len() > 0 && out[out.len() - 1] != '/' {
            out.push('/');
        }
        push_all(&mut out, &components[i]);
        i += 1;
    }
    proof {
        assert(views(components@).take(components@.len() as int) =~= views(components@));
    }
    out
}

fn components_start_with(whole: &Vec<Vec<char>>, front: &Vec<Vec<char>>) -> (b: bool)
    ensures
        b == has_components(views(whole@), views(front@)),
{
    if front.len() > whole.len() {
        return false;
    }
    let mut i: usize = 0;
    while i < front.len()
        invariant
            i <= front.len() <= whole.len(),
            forall|j: int| 0 <= j < i ==> whole@[j]@ == front@[j]@,
        decreases front.len() - i,
    {
        let a = &whole[i];
        let b = &front[i];
        let same = a.len() == b.len() && chars_occur_at(a, 0, b);
        proof {
            if same {
                assert(a@.subrange(0, b@.len() as int) =~= a@);
            } else if a.len() == b.len() {
                assert(a@.subrange(0, b@.len() as int) =~= a@);
            }
        }
        if !same {
            proof {
                assert(views(whole@).take(front@.len() as int)[i as int] == whole@[i as int]@);
                assert(views(front@)[i as int] == front@[i as int]@);
            }
            return false;
        }
        i += 1;
    }
    proof {
        assert(views(whole@).take(front@.len() as int) =~= views(front@));
    }
    true
}

/// Brings a path into its normal form without looking at the file system.
pub fn normalize_path(path: &str) -> (r: String)
    ensures
        r@ == normalized_path(path@),
{
    let chars = to_chars(path);
    let components = components_of(&chars);
    let kept = resolve(&components);
    from_chars(&join(&kept))
}

/// Checks a relative path for use under a base directory and brings the
/// whole path into its normal form.
pub fn sanitize_path(path: &str, base_dir: &str) -> (r: Result<String, SharedError>)
    ensures
        r is Ok <==> path_problem(path@, base_dir@) is None,
        r matches Ok(full) ==> full@ == normalized_path(full_path(base_dir@, path@)),
        r matches Err(e) ==> e matches SharedError::Sanitization(reason) && Some(reason@)
            == path_problem(path@, base_dir@),
{
    let p = to_chars(path);
    let mut i: usize = 0;
    while i < p.len()
        invariant
            i <= p.len(),
            p@ == path@,
            forall|j: int| 0 <= j < i ==> p@[j] != '\0',
        decreases p.len() - i,
    {
        if p[i] == '\0' {
            assert(0 <= i < path@.len() && path@[i as int] == '\0');
            return Err(SharedError::Sanitization(owned("Path contains null bytes")));
        }
        i += 1;
    }
    if p.len() > 0 && p[0] == '/' {
        return Err(SharedError::Sanitization(owned("Absolute paths are not allowed")));
    }
    let mut dots: Vec<char> = Vec::new();
    dots.push('.');
    dots.push('.');
    assert(dots@ =~= seq!['.', '.']);
    if crate::text::chars_find(&p, &dots).is_some() {
        return Err(SharedError::Sanitization(owned("Path traversal detected")));
    }
    let mut full = to_chars(base_dir);
    if full.len() > 0 && full[full.len() - 1] != '/' {
        full.push('/');
    }
    push_all(&mut full, &p);
    assert(full@ =~= full_path(base_dir@, path@));
    let kept = resolve(&components_of(&full));
    let base = components_of(&to_chars(base_dir));
    if !components_start_with(&kept, &base) {
        return Err(SharedError::Sanitization(owned("Path escapes base directory")));
    }
    Ok(from_chars(&join(&kept)))
}

// ---------------------------------------------------------------------------
// HTML
// ---------------------------------------------------------------------------

/// What is left of an HTML text under the conservative defaults of the
/// `ammonia` crate, with further tags and further attributes on all tags
/// allowed.
pub uninterp spec fn html_cleaned(
    input: Seq<char>,
    more_tags: Seq<Seq<char>>,
    more_attributes: Seq<Seq<char>>,
) -> Seq<char>;

/// What is left of an HTML text when no tag is allowed.
pub uninterp spec fn html_without_tags(input: Seq<char>) -> Seq<char>;

/// The views of a vector of strings.
pub open spec fn names(v: Seq<String>) -> Seq<Seq<char>> {
    v.map_values(|s: String| s@)
}

/// Whether tags and attributes may be added to the defaults: cleaning stops
/// on a configuration that allows `script` or `style`, whose content is
/// dropped, or the attribute `rel`, which the defaults set themselves.
pub open spec fn may_be_allowed(more_tags: Seq<Seq<char>>, more_attributes: Seq<Seq<char>>) -> bool {
    &&& forall|i: int|
        0 <= i < more_tags.len() ==> #[trigger] more_tags[i] != "script"@ && more_tags[i]
            != "style"@
    &&& forall|i: int| 0 <= i < more_attributes.len() ==> #[trigger] more_attributes[i] != "rel"@
}

/// Cleans with `ammonia::Builder::clean` on the default builder, after
/// `add_tags` and `add_generic_attributes`.
#[verifier::external_body]
fn clean_html(input: &str, more_tags: &Vec<String>, more_attributes: &Vec<String>) -> (r: String)
    requires
        may_be_allowed(names(more_tags@), names(more_attributes@)),
    ensures
        r@ == html_cleaned(input@, names(more_tags@), names(more_attributes@)),
{
    ammonia::Builder::default().add_tags(more_tags).add_generic_attributes(more_attributes).clean(
        input,
    ).to_string()
}

/// Cleans with `ammonia::Builder::clean` on the default builder with its set
/// of tags replaced by the empty set.
#[verifier::external_body]
fn clean_html_of_tags(input: &str) -> (r: String)
    ensures
        r@ == html_without_tags(input@),
{
    ammonia::Builder::default().tags(std::collections::HashSet::new()).clean(input).to_string()
}

/// The tags of basic formatting.
pub open spec fn basic_tags() -> Seq<Seq<char>> {
    seq!["p"@, "br"@, "strong"@, "em"@, "u"@, "ul"@, "ol"@, "li"@]
}

/// Cleans HTML under the conservative defaults.
pub fn sanitize_html(input: &str) -> (r: String)
    ensures
        r@ == html_cleaned(input@, Seq::empty(), Seq::empty()),
{
    let none: Vec<String> = Vec::new();
    assert(names(none@) =~= Seq::<Seq<char>>::empty());
    clean_html(input, &none, &none)
}

/// Cleans HTML and lets the tags of basic formatting and the attribute
/// `class` pass.
pub fn sanitize_html_basic(input: &str) -> (r: String)
    ensures
        r@ == html_cleaned(input@, basic_tags(), seq!["class"@]),
{
    let mut tags: Vec<String> = Vec::new();
    tags.push(owned("p"));
    tags.push(owned("br"));
    tags.push(owned("strong"));
    tags.push(owned("em"));
    tags.push(owned("u"));
    tags.push(owned("ul"));
    tags.push(owned("ol"));
    tags.push(owned("li"));
    let mut attributes: Vec<String> = Vec::new();
    attributes.push(owned("class"));
    proof {
        reveal_strlit("p");
        reveal_strlit("br");
        reveal_strlit("strong");
        reveal_strlit("em");
        reveal_strlit("u");
        reveal_strlit("ul");
        reveal_strlit("ol");
        reveal_strlit("li");
        reveal_strlit("class");
        reveal_strlit("script");
        reveal_strlit("style");
        reveal_strlit("rel");
        assert(names(tags@) =~= basic_tags());
        assert(names(attributes@) =~= seq!["class"@]);
        let t = names(tags@);
        assert forall|i: int| 0 <= i < t.len() implies #[trigger] t[i] != "script"@ && t[i]
            != "style"@ by {
            assert("script"@.len() == 6 && "style"@.len() == 5);
            assert(t[i].len() <= 2 || t[i] == "strong"@);
            assert("strong"@[1] != "script"@[1]);
            assert("strong"@.len() == 6);
        }
        let a = names(attributes@);
        assert forall|i: int| 0 <= i < a.len() implies #[trigger] a[i] != "rel"@ by {
            assert("class"@.len() == 5 && "rel"@.len() == 3);
        }
    }
    clean_html(input, &tags, &attributes)
}

/// Removes every tag from an HTML text.
pub fn strip_html(input: &str) -> (r: String)
    ensures
        r@ == html_without_tags(input@),
{
    clean_html_of_tags(input)
}

// ---------------------------------------------------------------------------
// Unicode normal forms
// ---------------------------------------------------------------------------

/// The canonical composition (NFC) of a text.
pub uninterp spec fn nfc_form(s: Seq<char>) -> Seq<char>;

/// The canonical decomposition (NFD) of a text.
pub uninterp spec fn nfd_form(s: Seq<char>) -> Seq<char>;

/// Collects what `unicode_normalization::UnicodeNormalization::nfc` yields.
#[verifier::external_body]
fn nfc(input: &str) -> (r: String)
    ensures
        r@ == nfc_form(input@),
{
    unicode_normalization::UnicodeNormalization::nfc(input).collect()
}

/// Collects what `unicode_normalization::UnicodeNormalization::nfd` yields.
#[verifier::external_body]
fn nfd(input: &str) -> (r: String)
    ensures
        r@ == nfd_form(input@),
{
    unicode_normalization::UnicodeNormalization::nfd(input).collect()
}

/// Brings a text into its canonical composition.
pub fn normalize_unicode(input: &str) -> (r: String)
    ensures
        r@ == nfc_form(input@),
{
    nfc(input)
}

/// Brings a text into its canonical decomposition.
pub fn normalize_unicode_nfd(input: &str) -> (r: String)
    ensures
        r@ == nfd_form(input@),
{
    nfd(input)
}

} // verus!
