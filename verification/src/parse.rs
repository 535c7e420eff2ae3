//! Channel-name list parsing: the driver reports the channels of a task as
//! one comma-separated string; [`unflatten_channel_string`] splits it on
//! literal commas and trims ASCII whitespace from each entry. The inverse
//! direction, joining names with `", "`, is what the driver model uses to
//! build that string, and the round-trip lemma at the bottom shows the two
//! agree on well-formed channel names.
//!
//! The parser is intentionally partial: colon-delimited channel ranges
//! (such as `Dev1/ai0:3`), which the driver may legally report, are not
//! expanded; each such range comes back as a single entry.

use vstd::prelude::*;
use vstd::seq_lib::*;

verus! {

/// The ASCII whitespace characters trimmed from each parsed entry.
pub open spec fn is_ascii_space(c: char) -> bool {
    c == ' ' || c == '\t' || c == '\n' || c == '\r' || c == '\u{c}'
}

/// `s` with its leading ASCII whitespace removed.
pub open spec fn trim_start_spec(s: Seq<char>) -> Seq<char>
    decreases s.len(),
{
    if s.len() > 0 && is_ascii_space(s[0]) {
        trim_start_spec(s.drop_first())
    } else {
        s
    }
}

/// `s` with its trailing ASCII whitespace removed.
pub open spec fn trim_end_spec(s: Seq<char>) -> Seq<char>
    decreases s.len(),
{
    if s.len() > 0 && is_ascii_space(s.last()) {
        trim_end_spec(s.drop_last())
    } else {
        s
    }
}

/// `s` with leading and trailing ASCII whitespace removed.
pub open spec fn trim_spec(s: Seq<char>) -> Seq<char> {
    trim_end_spec(trim_start_spec(s))
}

/// `s` holds no comma.
pub open spec fn comma_free(s: Seq<char>) -> bool {
    forall|i: int| 0 <= i < s.len() ==> s[i] != ','
}

/// `s` holds no null character, so it can travel as a C string.
pub open spec fn nul_free(s: Seq<char>) -> bool {
    forall|i: int| 0 <= i < s.len() ==> s[i] != '\0'
}

/// A physical-channel name the driver model accepts: non-empty, free of
/// commas (the list separator) and of null characters, and already trimmed.
pub open spec fn valid_channel_name(s: Seq<char>) -> bool {
    &&& s.len() > 0
    &&& comma_free(s)
    &&& nul_free(s)
    &&& trim_spec(s) == s
}

/// `s` split on literal commas; always at least one piece, and the empty
/// string splits into one empty piece.
pub open spec fn split_commas(s: Seq<char>) -> Seq<Seq<char>>
    decreases s.len(),
{
    if s.len() == 0 {
        seq![s]
    } else if s[0] == ',' {
        seq![Seq::<char>::empty()] + split_commas(s.drop_first())
    } else {
        let rest = split_commas(s.drop_first());
        seq![seq![s[0]] + rest[0]] + rest.drop_first()
    }
}

/// Each piece trimmed.
pub open spec fn map_trim(pieces: Seq<Seq<char>>) -> Seq<Seq<char>> {
    pieces.map_values(|t: Seq<char>| trim_spec(t))
}

/// What parsing a flattened channel string yields: the comma-separated
/// pieces, each trimmed of ASCII whitespace.
pub open spec fn unflatten_spec(s: Seq<char>) -> Seq<Seq<char>> {
    map_trim(split_commas(s))
}

/// The driver-side inverse: names joined with `", "`.
pub open spec fn flatten_spec(names: Seq<Seq<char>>) -> Seq<char>
    decreases names.len(),
{
    if names.len() == 0 {
        Seq::<char>::empty()
    } else if names.len() == 1 {
        names[0]
    } else {
        names[0] + seq![',', ' '] + flatten_spec(names.drop_first())
    }
}

pub proof fn lemma_split_commas_len(s: Seq<char>)
    ensures
        split_commas(s).len() >= 1,
    decreases s.len(),
{
    if s.len() == 0 {
    } else {
        lemma_split_commas_len(s.drop_first());
    }
}

/// Splitting a comma-free string yields exactly that string.
pub proof fn lemma_split_commas_no_comma(s: Seq<char>)
    requires
        comma_free(s),
    ensures
        split_commas(s) == seq![s],
    decreases s.len(),
{
    if s.len() == 0 {
    } else {
        assert(s[0] != ',');
        lemma_split_commas_no_comma(s.drop_first());
        lemma_split_commas_len(s.drop_first());
        assert(seq![s[0]] + s.drop_first() =~= s);
        assert(split_commas(s) =~~= seq![s]);
    }
}

/// Splitting at the first comma: the part before it is the first piece and
/// the rest splits on its own.
pub proof fn lemma_split_commas_first(s: Seq<char>, i: int)
    requires
        0 <= i < s.len(),
        s[i] == ',',
        forall|j: int| 0 <= j < i ==> s[j] != ',',
    ensures
        split_commas(s) == seq![s.subrange(0, i)] + split_commas(s.subrange(i + 1, s.len() as int)),
    decreases i,
{
    lemma_split_commas_len(s.drop_first());
    if i == 0 {
        assert(s.subrange(0, 0) =~= Seq::<char>::empty());
        assert(s.subrange(1, s.len() as int) =~= s.drop_first());
        assert(split_commas(s) =~~= seq![s.subrange(0, i)]
            + split_commas(s.subrange(i + 1, s.len() as int)));
    } else {
        let t = s.drop_first();
        assert(t[i - 1] == ',');
        assert(forall|j: int| 0 <= j < i - 1 ==> t[j] != ',');
        lemma_split_commas_first(t, i - 1);
        let rest = split_commas(t);
        lemma_split_commas_len(t.subrange(i, t.len() as int));
        assert(rest[0] == t.subrange(0, i - 1));
        assert(seq![s[0]] + t.subrange(0, i - 1) =~= s.subrange(0, i));
        assert(rest.drop_first() =~= split_commas(t.subrange(i, t.len() as int)));
        assert(t.subrange(i, t.len() as int) =~= s.subrange(i + 1, s.len() as int));
        assert(split_commas(s) =~~= seq![s.subrange(0, i)]
            + split_commas(s.subrange(i + 1, s.len() as int)));
    }
}

pub proof fn lemma_trim_start_len(s: Seq<char>)
    ensures
        trim_start_spec(s).len() <= s.len(),
        s.len() > 0 && is_ascii_space(s[0]) ==> trim_start_spec(s).len() < s.len(),
    decreases s.len(),
{
    if s.len() > 0 && is_ascii_space(s[0]) {
        lemma_trim_start_len(s.drop_first());
    }
}

pub proof fn lemma_trim_end_len(s: Seq<char>)
    ensures
        trim_end_spec(s).len() <= s.len(),
        s.len() > 0 && is_ascii_space(s.last()) ==> trim_end_spec(s).len() < s.len(),
    decreases s.len(),
{
    if s.len() > 0 && is_ascii_space(s.last()) {
        lemma_trim_end_len(s.drop_last());
    }
}

/// A trimmed-from-the-start string starts with no whitespace.
pub proof fn lemma_trim_start_no_leading(s: Seq<char>)
    ensures
        trim_start_spec(s).len() > 0 ==> !is_ascii_space(trim_start_spec(s)[0]),
    decreases s.len(),
{
    if s.len() > 0 && is_ascii_space(s[0]) {
        lemma_trim_start_no_leading(s.drop_first());
    }
}

/// A trimmed-from-the-end string ends with no whitespace.
pub proof fn lemma_trim_end_no_trailing(s: Seq<char>)
    ensures
        trim_end_spec(s).len() > 0 ==> !is_ascii_space(trim_end_spec(s).last()),
    decreases s.len(),
{
    if s.len() > 0 && is_ascii_space(s.last()) {
        lemma_trim_end_no_trailing(s.drop_last());
    }
}

/// Trimming the end never changes the first character.
pub proof fn lemma_trim_end_keeps_first(s: Seq<char>)
    ensures
        trim_end_spec(s).len() > 0 ==> trim_end_spec(s)[0] == s[0],
    decreases s.len(),
{
    if s.len() > 0 && is_ascii_space(s.last()) {
        lemma_trim_end_keeps_first(s.drop_last());
    }
}

/// Trimming is idempotent: a second trim changes nothing.
pub proof fn lemma_trim_idempotent(s: Seq<char>)
    ensures
        trim_spec(trim_spec(s)) == trim_spec(s),
{
    let u = trim_start_spec(s);
    let v = trim_end_spec(u);
    lemma_trim_start_no_leading(s);
    lemma_trim_end_keeps_first(u);
    if v.len() > 0 {
        assert(!is_ascii_space(v[0]));
    }
    assert(trim_start_spec(v) == v);
    lemma_trim_end_no_trailing(u);
    assert(trim_end_spec(v) == v);
}

/// Prepending whitespace does not change the trimmed value.
pub proof fn lemma_trim_cons_space(c: char, s: Seq<char>)
    requires
        is_ascii_space(c),
    ensures
        trim_spec(seq![c] + s) == trim_spec(s),
{
    let u = seq![c] + s;
    assert(u.len() > 0 && u[0] == c);
    assert(u.drop_first() =~= s);
}

/// For a non-empty string, being already trimmed is the same as starting
/// and ending with non-whitespace.
pub proof fn lemma_trimmed_iff(s: Seq<char>)
    requires
        s.len() > 0,
    ensures
        (trim_spec(s) == s) <==> (!is_ascii_space(s[0]) && !is_ascii_space(s.last())),
{
    if !is_ascii_space(s[0]) && !is_ascii_space(s.last()) {
        assert(trim_start_spec(s) == s);
        assert(trim_end_spec(s) == s);
    }
    if is_ascii_space(s[0]) {
        lemma_trim_start_len(s);
        lemma_trim_end_len(trim_start_spec(s));
        assert(trim_spec(s).len() < s.len());
    } else if is_ascii_space(s.last()) {
        assert(trim_start_spec(s) == s);
        lemma_trim_end_len(s);
        assert(trim_spec(s).len() < s.len());
    }
}

pub proof fn lemma_trim_start_comma_free(s: Seq<char>)
    requires
        comma_free(s),
    ensures
        comma_free(trim_start_spec(s)),
    decreases s.len(),
{
    if s.len() > 0 && is_ascii_space(s[0]) {
        assert(comma_free(s.drop_first()));
        lemma_trim_start_comma_free(s.drop_first());
    }
}

pub proof fn lemma_trim_end_comma_free(s: Seq<char>)
    requires
        comma_free(s),
    ensures
        comma_free(trim_end_spec(s)),
    decreases s.len(),
{
    if s.len() > 0 && is_ascii_space(s.last()) {
        assert(comma_free(s.drop_last()));
        lemma_trim_end_comma_free(s.drop_last());
    }
}

/// Trimming keeps a string comma-free.
pub proof fn lemma_trim_comma_free(s: Seq<char>)
    requires
        comma_free(s),
    ensures
        comma_free(trim_spec(s)),
{
    lemma_trim_start_comma_free(s);
    lemma_trim_end_comma_free(trim_start_spec(s));
}

/// Every piece of a comma split is comma-free.
pub proof fn lemma_split_pieces_comma_free(s: Seq<char>)
    ensures
        forall|k: int|
            0 <= k < split_commas(s).len() ==> comma_free(#[trigger] split_commas(s)[k]),
    decreases s.len(),
{
    if s.len() == 0 {
        assert(comma_free(split_commas(s)[0]));
    } else if s[0] == ',' {
        let rest = split_commas(s.drop_first());
        lemma_split_pieces_comma_free(s.drop_first());
        assert(comma_free(split_commas(s)[0]));
        assert forall|k: int|
            1 <= k < split_commas(s).len() implies comma_free(#[trigger] split_commas(s)[k]) by {
            assert(split_commas(s)[k] == rest[k - 1]);
        }
    } else {
        let rest = split_commas(s.drop_first());
        lemma_split_pieces_comma_free(s.drop_first());
        lemma_split_commas_len(s.drop_first());
        assert(comma_free(rest[0]));
        assert(comma_free(seq![s[0]] + rest[0]));
        assert forall|k: int|
            1 <= k < split_commas(s).len() implies comma_free(#[trigger] split_commas(s)[k]) by {
            assert(split_commas(s)[k] == rest.drop_first()[k - 1]);
            assert(rest.drop_first()[k - 1] == rest[k]);
        }
    }
}

/// Every entry the parser yields is already trimmed, so parsing is
/// idempotent: feeding any single entry back through the parser returns
/// exactly that entry.
pub proof fn lemma_unflatten_idempotent(s: Seq<char>)
    ensures
        forall|k: int|
            0 <= k < unflatten_spec(s).len() ==> trim_spec(#[trigger] unflatten_spec(s)[k])
                == unflatten_spec(s)[k],
        forall|k: int|
            0 <= k < unflatten_spec(s).len() ==> unflatten_spec(#[trigger] unflatten_spec(s)[k])
                == seq![unflatten_spec(s)[k]],
{
    lemma_split_pieces_comma_free(s);
    assert forall|k: int| 0 <= k < unflatten_spec(s).len() implies trim_spec(
        #[trigger] unflatten_spec(s)[k],
    ) == unflatten_spec(s)[k] by {
        lemma_trim_idempotent(split_commas(s)[k]);
    }
    assert forall|k: int| 0 <= k < unflatten_spec(s).len() implies unflatten_spec(
        #[trigger] unflatten_spec(s)[k],
    ) == seq![unflatten_spec(s)[k]] by {
        let e = unflatten_spec(s)[k];
        lemma_trim_comma_free(split_commas(s)[k]);
        lemma_split_commas_no_comma(e);
        lemma_trim_idempotent(split_commas(s)[k]);
        assert(unflatten_spec(e) =~~= seq![e]);
    }
}

/// How flattening grows when one more name is appended.
pub proof fn lemma_flatten_push(names: Seq<Seq<char>>, x: Seq<char>)
    ensures
        names.len() == 0 ==> flatten_spec(names.push(x)) == x,
        names.len() > 0 ==> flatten_spec(names.push(x)) == flatten_spec(names) + seq![',', ' ']
            + x,
    decreases names.len(),
{
    if names.len() == 0 {
        assert(names.push(x)[0] == x);
    } else if names.len() == 1 {
        assert(names.push(x)[0] == names[0]);
        assert(names.push(x).drop_first() =~= seq![x]);
        assert(flatten_spec(seq![x]) == x);
    } else {
        lemma_flatten_push(names.drop_first(), x);
        assert(names.push(x).drop_first() =~= names.drop_first().push(x));
        assert(flatten_spec(names.push(x)) == names[0] + seq![',', ' ']
            + (flatten_spec(names.drop_first()) + seq![',', ' '] + x));
        assert(names[0] + seq![',', ' '] + (flatten_spec(names.drop_first()) + seq![',', ' '] + x)
            =~= (names[0] + seq![',', ' '] + flatten_spec(names.drop_first())) + seq![',', ' ']
            + x);
    }
}

/// Parsing inverts flattening: for one or more valid channel names, the
/// flattened `", "`-joined string parses back to exactly those names, in
/// order.
pub proof fn lemma_unflatten_flatten(names: Seq<Seq<char>>)
    requires
        names.len() >= 1,
        forall|k: int|
            0 <= k < names.len() ==> comma_free(#[trigger] names[k]) && trim_spec(names[k])
                == names[k],
    ensures
        unflatten_spec(flatten_spec(names)) == names,
    decreases names.len(),
{
    let f = flatten_spec(names);
    if names.len() == 1 {
        lemma_split_commas_no_comma(f);
        assert(map_trim(seq![names[0]]) =~~= seq![trim_spec(names[0])]);
        assert(unflatten_spec(f) =~~= names);
    } else {
        let head = names[0];
        let rest_f = flatten_spec(names.drop_first());
        let l = head.len() as int;
        assert(f == head + seq![',', ' '] + rest_f);
        assert(f[l] == ',');
        assert(forall|j: int| 0 <= j < l ==> f[j] == head[j]);
        lemma_split_commas_first(f, l);
        assert(f.subrange(0, l) =~= head);
        let tail = f.subrange(l + 1, f.len() as int);
        assert(tail =~= seq![' '] + rest_f);
        // the space after the comma joins the first piece of the remainder
        let rest = split_commas(rest_f);
        lemma_split_commas_len(rest_f);
        assert(tail.len() > 0 && tail[0] == ' ');
        assert(tail.drop_first() =~= rest_f);
        assert(split_commas(tail) == seq![seq![' '] + rest[0]] + rest.drop_first());
        lemma_unflatten_flatten(names.drop_first());
        lemma_trim_cons_space(' ', rest[0]);
        assert(map_trim(split_commas(tail)) =~~= map_trim(rest));
        assert(unflatten_spec(f) =~~= seq![trim_spec(head)] + map_trim(rest));
        assert(seq![head] + names.drop_first() =~= names);
        assert(unflatten_spec(f) =~~= names);
    }
}

/// Whether `c` is one of the ASCII whitespace characters the parser trims.
pub fn is_ascii_space_char(c: char) -> (b: bool)
    ensures
        b == is_ascii_space(c),
{
    c == ' ' || c == '\t' || c == '\n' || c == '\r' || c == '\u{c}'
}

/// The characters of `s` between `from` and `to`, trimmed of surrounding
/// ASCII whitespace, as a fresh `String`.
fn trimmed_token(s: &str, from: usize, to: usize) -> (r: String)
    requires
        from <= to <= s@.len(),
    ensures
        r@ == trim_spec(s@.subrange(from as int, to as int)),
{
    let mut lo = from;
    let mut hi = to;
    while lo < hi && is_ascii_space_char(s.get_char(lo))
        invariant
            from <= lo <= hi <= s@.len(),
            hi == to,
            trim_start_spec(s@.subrange(from as int, to as int)) == trim_start_spec(
                s@.subrange(lo as int, to as int),
            ),
        decreases hi - lo,
    {
        proof {
            let cur = s@.subrange(lo as int, to as int);
            assert(cur[0] == s@[lo as int]);
            assert(cur.drop_first() =~= s@.subrange(lo as int + 1, to as int));
        }
        lo = lo + 1;
    }
    proof {
        let cur = s@.subrange(lo as int, to as int);
        if lo < hi {
            assert(!is_ascii_space(cur[0]));
        }
        assert(trim_start_spec(cur) == cur);
    }
    while lo < hi && is_ascii_space_char(s.get_char(hi - 1))
        invariant
            from <= lo <= hi <= to <= s@.len(),
            trim_start_spec(s@.subrange(from as int, to as int)) == s@.subrange(
                lo as int,
                to as int,
            ),
            trim_end_spec(s@.subrange(lo as int, to as int)) == trim_end_spec(
                s@.subrange(lo as int, hi as int),
            ),
        decreases hi - lo,
    {
        proof {
            let cur = s@.subrange(lo as int, hi as int);
            assert(cur.last() == s@[hi - 1]);
            assert(cur.drop_last() =~= s@.subrange(lo as int, hi as int - 1));
        }
        hi = hi - 1;
    }
    proof {
        let cur = s@.subrange(lo as int, hi as int);
        if lo < hi {
            assert(!is_ascii_space(cur.last()));
        }
        assert(trim_end_spec(cur) == cur);
    }
    let piece = s.substring_char(lo, hi);
    String::from_str(piece)
}

/// Splits a driver-reported channel string on literal commas and trims the
/// ASCII whitespace around each entry.
///
/// Colon-delimited channel ranges are not expanded: such a range stays one
/// entry of the result.
pub fn unflatten_channel_string(channel_names: &str) -> (r: Vec<String>)
    ensures
        r.deep_view() == unflatten_spec(channel_names@),
{
    let ghost s = channel_names@;
    let n = channel_names.unicode_len();
    let mut out: Vec<String> = Vec::new();
    let mut start: usize = 0;
    let mut i: usize = 0;
    proof {
        assert(s.subrange(0, n as int) =~= s);
        assert(out.deep_view() + map_trim(split_commas(s)) =~~= map_trim(split_commas(s)));
    }
    while i < n
        invariant
            start <= i <= n,
            n == s.len(),
            channel_names@ == s,
            forall|j: int| start <= j < i ==> s[j] != ',',
            unflatten_spec(s) == out.deep_view() + map_trim(
                split_commas(s.subrange(start as int, n as int)),
            ),
        decreases n - i,
    {
        let c = channel_names.get_char(i);
        if c == ',' {
            let tok = trimmed_token(channel_names, start, i);
            let ghost dv0 = out.deep_view();
            out.push(tok);
            proof {
                let suffix = s.subrange(start as int, n as int);
                assert(suffix[i - start] == ',');
                assert(forall|j: int| 0 <= j < i - start ==> suffix[j] == s[start + j] && s[start
                    + j] != ',');
                lemma_split_commas_first(suffix, i - start);
                assert(suffix.subrange(0, i - start) =~= s.subrange(start as int, i as int));
                assert(suffix.subrange(i - start + 1, suffix.len() as int) =~= s.subrange(
                    i as int + 1,
                    n as int,
                ));
                let next = split_commas(s.subrange(i as int + 1, n as int));
                assert(map_trim(seq![s.subrange(start as int, i as int)] + next) =~~= seq![
                    trim_spec(s.subrange(start as int, i as int))
                ] + map_trim(next));
                assert(out.deep_view() =~~= dv0.push(tok@));
                assert(dv0 + (seq![tok@] + map_trim(next)) =~~= out.deep_view() + map_trim(next));
            }
            start = i + 1;
        }
        i = i + 1;
    }
    let tok = trimmed_token(channel_names, start, n);
    let ghost dv0 = out.deep_view();
    out.push(tok);
    proof {
        let suffix = s.subrange(start as int, n as int);
        assert(forall|j: int| 0 <= j < suffix.len() ==> suffix[j] == s[start + j] && s[start + j]
            != ',');
        lemma_split_commas_no_comma(suffix);
        assert(map_trim(seq![suffix]) =~~= seq![trim_spec(suffix)]);
        assert(out.deep_view() =~~= dv0.push(tok@));
        assert(dv0 + seq![tok@] =~~= out.deep_view());
    }
    out
}

/// Joins channel names with `", "`, the shape in which the driver reports
/// the channel list of a task.
pub fn flatten_channel_names(names: &Vec<String>) -> (r: String)
    ensures
        r@ == flatten_spec(names.deep_view()),
{
    let mut out = String::new();
    let mut idx: usize = 0;
    while idx < names.len()
        invariant
            idx <= names.len(),
            out@ == flatten_spec(names.deep_view().subrange(0, idx as int)),
        decreases names.len() - idx,
    {
        let ghost prefix = names.deep_view().subrange(0, idx as int);
        if idx > 0 {
            out.append(", ");
        }
        out.append(names[idx].as_str());
        proof {
            reveal_strlit(", ");
            lemma_flatten_push(prefix, names.deep_view()[idx as int]);
            assert(names.deep_view().subrange(0, idx as int + 1) =~= prefix.push(
                names.deep_view()[idx as int],
            ));
            assert(", "@ =~= seq![',', ' ']);
        }
        idx = idx + 1;
    }
    proof {
        assert(names.deep_view().subrange(0, names@.len() as int) =~~= names.deep_view());
    }
    out
}

/// Whether `s` is a channel name the driver model accepts.
pub fn is_valid_channel_name(s: &str) -> (b: bool)
    ensures
        b == valid_channel_name(s@),
{
    let n = s.unicode_len();
    if n == 0 {
        return false;
    }
    if is_ascii_space_char(s.get_char(0)) || is_ascii_space_char(s.get_char(n - 1)) {
        proof {
            lemma_trimmed_iff(s@);
        }
        return false;
    }
    let mut i: usize = 0;
    while i < n
        invariant
            i <= n,
            n == s@.len(),
            forall|j: int| 0 <= j < i ==> s@[j] != ',' && s@[j] != '\0',
        decreases n - i,
    {
        let c = s.get_char(i);
        if c == ',' || c == '\0' {
            return false;
        }
        i = i + 1;
    }
    proof {
        lemma_trimmed_iff(s@);
    }
    true
}

/// Whether `s` holds an embedded null character, which no C string can
/// carry.
pub fn contains_nul(s: &str) -> (b: bool)
    ensures
        b == !nul_free(s@),
{
    let n = s.unicode_len();
    let mut i: usize = 0;
    while i < n
        invariant
            i <= n,
            n == s@.len(),
            forall|j: int| 0 <= j < i ==> s@[j] != '\0',
        decreases n - i,
    {
        if s.get_char(i) == '\0' {
            return true;
        }
        i = i + 1;
    }
    false
}

} // verus!
