//! Turning the name of an archive entry into a safe relative path.
use vstd::prelude::*;
use vstd::string::StrSliceExecFns;

verus! {

/// What `sanitize_filename::sanitize` makes of one path component, with the
/// default options of the target the library is built for.
pub uninterp spec fn sanitized_name(name: Seq<char>) -> Seq<char>;

/// A character that `sanitize_filename` removes from names on every target:
/// `/ ? < > \ : * | "`.
pub open spec fn is_illegal_char(c: char) -> bool {
    c == '/' || c == '?' || c == '<' || c == '>' || c == '\\' || c == ':' || c == '*' || c == '|'
        || c == '"'
}

/// A control character (U+0000 to U+001F and U+0080 to U+009F), which
/// `sanitize_filename` removes.
pub open spec fn is_control_char(c: char) -> bool {
    (c as int) <= 0x1f || (0x80 <= (c as int) && (c as int) <= 0x9f)
}

/// A non-empty name made of dots only.
pub open spec fn is_all_dots(s: Seq<char>) -> bool {
    s.len() > 0 && forall|i: int| 0 <= i < s.len() ==> s[i] == '.'
}

/// A safe path component: no illegal or control character, neither `.`
/// nor `..`, and at most 255 characters.
pub open spec fn is_clean_component(s: Seq<char>) -> bool {
    &&& forall|i: int| 0 <= i < s.len() ==> !is_illegal_char(#[trigger] s[i]) && !is_control_char(s[i])
    &&& s != seq!['.']
    &&& s != seq!['.', '.']
    &&& s.len() <= 255
}

/// `sanitize_filename::sanitize` with its default options (those of the
/// target it is built for).  Besides naming the result, the contract states
/// what its source shows of every result, on every target: illegal and
/// control characters are removed; a name made of dots only becomes empty,
/// so no result is `.` or `..`; and a result longer than 255 bytes is cut
/// to at most 255 bytes, so it has at most 255 characters.
#[verifier::external_body]
fn sanitize_component(name: &str) -> (r: String)
    ensures
        r@ == sanitized_name(name@),
        is_clean_component(r@),
        is_all_dots(name@) ==> r@.len() == 0,
{
    sanitize_filename::sanitize(name)
}

/// The path with every backslash turned into a slash.
pub open spec fn slash_normalized(s: Seq<char>) -> Seq<char> {
    s.map_values(|c: char| if c == '\\' { '/' } else { c })
}

/// `s.split('/')`: the pieces between slashes, empty ones included, so that
/// there is always one more piece than there are slashes.
pub open spec fn split_slash(s: Seq<char>) -> Seq<Seq<char>>
    decreases s.len(),
{
    if s.len() == 0 {
        seq![Seq::<char>::empty()]
    } else {
        let prev = split_slash(s.drop_last());
        if s.last() == '/' {
            prev.push(Seq::<char>::empty())
        } else {
            prev.update(prev.len() - 1, prev.last().push(s.last()))
        }
    }
}

/// The components of a path: split at `/` and `\`, each sanitized.
pub open spec fn sanitized_components(path: Seq<char>) -> Seq<Seq<char>> {
    split_slash(slash_normalized(path)).map_values(|c: Seq<char>| sanitized_name(c))
}

proof fn lemma_split_slash_nonempty(s: Seq<char>)
    ensures
        split_slash(s).len() >= 1,
    decreases s.len(),
{
    if s.len() > 0 {
        lemma_split_slash_nonempty(s.drop_last());
    }
}

/// The components of a relative path without reserved names, separators,
/// `.` or `..`: the path is split at `/` and `\`, and every piece is
/// sanitized.
pub fn sanitize_file_path(path: &str) -> (r: Vec<String>)
    ensures
        r@.map_values(|c: String| c@) == sanitized_components(path@),
        forall|i: int| 0 <= i < r@.len() ==> is_clean_component(#[trigger] r@[i]@),
{
    let ghost norm = slash_normalized(path@);
    let n = path.unicode_len();
    let mut out: Vec<String> = Vec::new();
    let ghost mut parts: Seq<Seq<char>> = Seq::empty();
    let mut start: usize = 0;
    let mut i: usize = 0;
    proof {
        assert(norm.take(0) =~= Seq::<char>::empty());
        assert(path@.subrange(0, 0) =~= Seq::<char>::empty());
        assert(parts.push(Seq::<char>::empty()) =~= seq![Seq::<char>::empty()]);
        assert(out@.map_values(|c: String| c@) =~= parts.map_values(|c: Seq<char>| sanitized_name(c)));
    }
    while i < n
        invariant
            n == path@.len(),
            norm == slash_normalized(path@),
            start <= i <= n,
            split_slash(norm.take(i as int)) == parts.push(path@.subrange(start as int, i as int)),
            out@.map_values(|c: String| c@) == parts.map_values(|c: Seq<char>| sanitized_name(c)),
            forall|k: int| 0 <= k < out@.len() ==> is_clean_component(#[trigger] out@[k]@),
        decreases n - i,
    {
        let c = path.get_char(i);
        proof {
            assert(norm.take(i + 1).drop_last() == norm.take(i as int));
            assert(norm.take(i + 1).last() == norm[i as int]);
        }
        if c == '/' || c == '\\' {
            let piece = sanitize_component(path.substring_char(start, i));
            proof {
                let old_parts = parts;
                parts = parts.push(path@.subrange(start as int, i as int));
                assert(parts.map_values(|c: Seq<char>| sanitized_name(c)) =~= old_parts.map_values(
                    |c: Seq<char>| sanitized_name(c),
                ).push(piece@));
            }
            out.push(piece);
            proof {
                assert(out@.map_values(|c: String| c@) =~= parts.map_values(|c: Seq<char>| sanitized_name(c)));
            }
            start = i + 1;
            proof {
                assert(path@.subrange(start as int, (i + 1) as int) =~= Seq::<char>::empty());
            }
        } else {
            proof {
                lemma_split_slash_nonempty(norm.take(i as int));
                assert(path@.subrange(start as int, (i + 1) as int) =~= path@.subrange(
                    start as int,
                    i as int,
                ).push(c));
            }
        }
        i = i + 1;
    }
    let piece = sanitize_component(path.substring_char(start, n));
    proof {
        let old_parts = parts;
        parts = parts.push(path@.subrange(start as int, n as int));
        assert(norm.take(n as int) =~= norm);
        assert(parts.map_values(|c: Seq<char>| sanitized_name(c)) =~= old_parts.map_values(
            |c: Seq<char>| sanitized_name(c),
        ).push(piece@));
    }
    out.push(piece);
    proof {
        assert(out@.map_values(|c: String| c@) =~= parts.map_values(|c: Seq<char>| sanitized_name(c)));
    }
    out
}

/// `s` holds neither `/` nor `\`.
pub open spec fn has_no_separator(s: Seq<char>) -> bool {
    forall|i: int| 0 <= i < s.len() ==> s[i] != '/' && s[i] != '\\'
}

proof fn lemma_normalized_plain(s: Seq<char>)
    requires
        has_no_separator(s),
    ensures
        slash_normalized(s) == s,
{
    assert(slash_normalized(s) =~= s);
}

proof fn lemma_split_plain(s: Seq<char>)
    requires
        forall|i: int| 0 <= i < s.len() ==> s[i] != '/',
    ensures
        split_slash(s) == seq![s],
    decreases s.len(),
{
    if s.len() > 0 {
        let d = s.drop_last();
        lemma_split_plain(d);
        assert(d.push(s.last()) =~= s);
        assert(split_slash(s) =~= seq![s]);
    } else {
        assert(s =~= Seq::<char>::empty());
    }
}

proof fn lemma_split_concat(u: Seq<char>, v: Seq<char>)
    ensures
        split_slash(u.push('/') + v) == split_slash(u) + split_slash(v),
    decreases v.len(),
{
    let w = u.push('/') + v;
    if v.len() == 0 {
        assert(w =~= u.push('/'));
        assert(w.drop_last() =~= u);
        assert(split_slash(u) + split_slash(v) =~= split_slash(u).push(Seq::<char>::empty()));
    } else {
        let vd = v.drop_last();
        assert(w.drop_last() =~= u.push('/') + vd);
        assert(w.last() == v.last());
        lemma_split_concat(u, vd);
        lemma_split_slash_nonempty(vd);
        let a = split_slash(u);
        let b = split_slash(vd);
        if v.last() == '/' {
            assert((a + b).push(Seq::<char>::empty()) =~= a + b.push(Seq::<char>::empty()));
        } else {
            let prev = a + b;
            assert(prev.update(prev.len() - 1, prev.last().push(v.last())) =~= a + b.update(
                b.len() - 1,
                b.last().push(v.last()),
            ));
        }
    }
}

/// A path without `/` or `\` is one component: the whole path, sanitized.
pub proof fn lemma_single_component(path: Seq<char>)
    requires
        has_no_separator(path),
    ensures
        sanitized_components(path) == seq![sanitized_name(path)],
{
    lemma_normalized_plain(path);
    lemma_split_plain(path);
    assert(seq![path].map_values(|c: Seq<char>| sanitized_name(c)) =~= seq![sanitized_name(path)]);
}

/// At the first separator (`/` or `\`) the path splits: the part before it
/// is the first component, sanitized, and the components of the rest
/// follow.  With the single-component law this fixes the components of
/// every path.
pub proof fn lemma_component_at_separator(a: Seq<char>, c: char, b: Seq<char>)
    requires
        has_no_separator(a),
        c == '/' || c == '\\',
    ensures
        sanitized_components(a.push(c) + b) == seq![sanitized_name(a)] + sanitized_components(b),
{
    let nb = slash_normalized(b);
    lemma_normalized_plain(a);
    assert(slash_normalized(a.push(c) + b) =~= a.push('/') + nb);
    lemma_split_concat(a, nb);
    lemma_split_plain(a);
    assert((seq![a] + split_slash(nb)).map_values(|x: Seq<char>| sanitized_name(x)) =~= seq![
        sanitized_name(a),
    ] + split_slash(nb).map_values(|x: Seq<char>| sanitized_name(x)));
}

} // verus!
