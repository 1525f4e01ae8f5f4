//! The tokenizer: turns one raw command line into an ordered sequence of
//! tokens, handling comments, quoting, brace expansion and the recognition
//! of the redirection and pipe operators `>`, `>>` and `|`.
//!
//! The specification side models the line as a `Seq<char>` and defines the
//! token sequence by a character-by-character state machine
//! ([`tokenize_from`]); brace expansion is defined by the recursive
//! [`expand_spec`]. The executable functions are proved to return exactly
//! those sequences.

use vstd::prelude::*;
use vstd::string::StrSliceExecFns;
use vstd::string::StringExecFns;

verus! {

/// The two separator characters the tokenizer treats as blank.
pub open spec fn is_blank(c: char) -> bool {
    c == ' ' || c == '\t'
}

/// `s` without its leading blanks.
pub open spec fn drop_leading_blanks(s: Seq<char>) -> Seq<char>
    decreases s.len(),
{
    if s.len() > 0 && is_blank(s[0]) {
        drop_leading_blanks(s.drop_first())
    } else {
        s
    }
}

/// `s` without its trailing blanks.
pub open spec fn drop_trailing_blanks(s: Seq<char>) -> Seq<char>
    decreases s.len(),
{
    if s.len() > 0 && is_blank(s[s.len() - 1]) {
        drop_trailing_blanks(s.drop_last())
    } else {
        s
    }
}

/// `s` without its surrounding blanks.
pub open spec fn trim_blanks(s: Seq<char>) -> Seq<char> {
    drop_trailing_blanks(drop_leading_blanks(s))
}

/// The position of the first `{` in `s` at or after `i`, if any.
pub open spec fn find_open_from(s: Seq<char>, i: int) -> Option<int>
    decreases s.len() - i,
{
    if i < 0 || i >= s.len() {
        None
    } else if s[i] == '{' {
        Some(i)
    } else {
        find_open_from(s, i + 1)
    }
}

/// The position of the `}` that closes the group already `depth` braces deep
/// at position `i`, if any. Scanning the whole of `s` from a `{` at position
/// `p` is `find_close_from(s, p, 0)`: the opening brace itself raises the
/// depth to one, and the matching `}` is the one that brings it back to zero.
pub open spec fn find_close_from(s: Seq<char>, i: int, depth: int) -> Option<int>
    decreases s.len() - i,
{
    if i < 0 || i >= s.len() {
        None
    } else if s[i] == '{' {
        find_close_from(s, i + 1, depth + 1)
    } else if s[i] == '}' {
        if depth == 1 {
            Some(i)
        } else {
            find_close_from(s, i + 1, depth - 1)
        }
    } else {
        find_close_from(s, i + 1, depth)
    }
}

/// The parts of a brace group's content, split on the commas that lie at
/// nesting depth zero and trimmed of surrounding blanks. `start` is where the
/// part under construction began; the scan is at `i` with `depth` open
/// braces.
pub open spec fn split_parts_from(c: Seq<char>, i: int, depth: int, start: int) -> Seq<Seq<char>>
    decreases c.len() - i,
{
    if i < 0 || i >= c.len() {
        seq![trim_blanks(c.subrange(start, c.len() as int))]
    } else if c[i] == '{' {
        split_parts_from(c, i + 1, depth + 1, start)
    } else if c[i] == '}' {
        split_parts_from(c, i + 1, depth - 1, start)
    } else if c[i] == ',' && depth == 0 {
        seq![trim_blanks(c.subrange(start, i))] + split_parts_from(c, i + 1, 0, i + 1)
    } else {
        split_parts_from(c, i + 1, depth, start)
    }
}

/// The comma-separated, trimmed parts of a brace group's content.
pub open spec fn split_parts(c: Seq<char>) -> Seq<Seq<char>> {
    split_parts_from(c, 0, 0, 0)
}

/// The length of the longest sequence among `parts` (zero when empty).
pub open spec fn max_len(parts: Seq<Seq<char>>) -> nat
    decreases parts.len(),
{
    if parts.len() == 0 {
        0
    } else {
        let rest = max_len(parts.drop_first());
        if parts[0].len() >= rest {
            parts[0].len()
        } else {
            rest
        }
    }
}

pub proof fn lemma_trim_blanks_len(s: Seq<char>)
    ensures
        trim_blanks(s).len() <= s.len(),
{
    lemma_drop_leading_len(s);
    lemma_drop_trailing_len(drop_leading_blanks(s));
}

proof fn lemma_drop_leading_len(s: Seq<char>)
    ensures
        drop_leading_blanks(s).len() <= s.len(),
    decreases s.len(),
{
    if s.len() > 0 && is_blank(s[0]) {
        lemma_drop_leading_len(s.drop_first());
    }
}

proof fn lemma_drop_trailing_len(s: Seq<char>)
    ensures
        drop_trailing_blanks(s).len() <= s.len(),
    decreases s.len(),
{
    if s.len() > 0 && is_blank(s[s.len() - 1]) {
        lemma_drop_trailing_len(s.drop_last());
    }
}

/// Every part produced from a group's content is no longer than the stretch
/// of content it came from.
pub proof fn lemma_split_parts_from_len(c: Seq<char>, i: int, depth: int, start: int)
    requires
        0 <= start <= i <= c.len(),
    ensures
        forall|j: int|
            0 <= j < split_parts_from(c, i, depth, start).len() ==> (#[trigger] split_parts_from(
                c,
                i,
                depth,
                start,
            )[j]).len() <= c.len(),
    decreases c.len() - i,
{
    if i >= c.len() {
        lemma_trim_blanks_len(c.subrange(start, c.len() as int));
    } else if c[i] == '{' {
        lemma_split_parts_from_len(c, i + 1, depth + 1, start);
        assert(split_parts_from(c, i, depth, start) == split_parts_from(c, i + 1, depth + 1, start));
    } else if c[i] == '}' {
        lemma_split_parts_from_len(c, i + 1, depth - 1, start);
        assert(split_parts_from(c, i, depth, start) == split_parts_from(c, i + 1, depth - 1, start));
    } else if c[i] == ',' && depth == 0 {
        lemma_trim_blanks_len(c.subrange(start, i));
        lemma_split_parts_from_len(c, i + 1, 0, i + 1);
        let head = trim_blanks(c.subrange(start, i));
        let rest = split_parts_from(c, i + 1, 0, i + 1);
        assert(split_parts_from(c, i, depth, start) == seq![head] + rest);
        assert forall|j: int| 0 <= j < (seq![head] + rest).len() implies ((seq![head]
            + rest)[j]).len() <= c.len() by {
            if j > 0 {
                assert((seq![head] + rest)[j] == rest[j - 1]);
            }
        };
    } else {
        lemma_split_parts_from_len(c, i + 1, depth, start);
        assert(split_parts_from(c, i, depth, start) == split_parts_from(c, i + 1, depth, start));
    }
}

pub proof fn lemma_max_len_bound(parts: Seq<Seq<char>>, bound: nat)
    requires
        forall|j: int| 0 <= j < parts.len() ==> (#[trigger] parts[j]).len() <= bound,
    ensures
        max_len(parts) <= bound,
    decreases parts.len(),
{
    if parts.len() > 0 {
        assert forall|j: int| 0 <= j < parts.drop_first().len() implies (
        #[trigger] parts.drop_first()[j]).len() <= bound by {
            assert(parts.drop_first()[j] == parts[j + 1]);
        };
        lemma_max_len_bound(parts.drop_first(), bound);
    }
}

pub proof fn lemma_max_len_ge(parts: Seq<Seq<char>>, j: int)
    requires
        0 <= j < parts.len(),
    ensures
        parts[j].len() <= max_len(parts),
    decreases parts.len(),
{
    if j > 0 {
        lemma_max_len_ge(parts.drop_first(), j - 1);
        assert(parts.drop_first()[j - 1] == parts[j]);
    }
}

proof fn lemma_max_len_drop_first(parts: Seq<Seq<char>>)
    requires
        parts.len() > 0,
    ensures
        max_len(parts.drop_first()) <= max_len(parts),
{
}

/// The position of the first `{` of `s` and of its matching `}`, when both
/// exist: the bounds within which brace expansion rewrites.
pub open spec fn brace_group(s: Seq<char>) -> Option<(int, int)> {
    match find_open_from(s, 0) {
        None => None,
        Some(start) => match find_close_from(s, start, 0) {
            None => None,
            Some(end) => Some((start, end)),
        },
    }
}

proof fn lemma_find_open_in_range(s: Seq<char>, i: int)
    requires
        0 <= i,
        find_open_from(s, i) is Some,
    ensures
        i <= find_open_from(s, i)->0 < s.len(),
        s[find_open_from(s, i)->0] == '{',
    decreases s.len() - i,
{
    if i < s.len() && s[i] != '{' {
        lemma_find_open_in_range(s, i + 1);
    }
}

proof fn lemma_find_close_in_range(s: Seq<char>, i: int, depth: int)
    requires
        0 <= i,
        find_close_from(s, i, depth) is Some,
    ensures
        i <= find_close_from(s, i, depth)->0 < s.len(),
        s[find_close_from(s, i, depth)->0] == '}',
    decreases s.len() - i,
{
    if i < s.len() {
        if s[i] == '{' {
            lemma_find_close_in_range(s, i + 1, depth + 1);
        } else if s[i] == '}' {
            if depth != 1 {
                lemma_find_close_in_range(s, i + 1, depth - 1);
            }
        } else {
            lemma_find_close_in_range(s, i + 1, depth);
        }
    }
}

/// When `s` holds a matched brace group, its bounds are within `s` and the
/// group is non-degenerate: the `}` lies strictly after the `{`.
pub proof fn lemma_brace_group_bounds(s: Seq<char>)
    requires
        brace_group(s) is Some,
    ensures
        0 <= (brace_group(s)->0).0 < (brace_group(s)->0).1 < s.len(),
        s[(brace_group(s)->0).0] == '{',
        s[(brace_group(s)->0).1] == '}',
{
    let start = find_open_from(s, 0)->0;
    lemma_find_open_in_range(s, 0);
    lemma_find_close_in_range(s, start, 0);
    let end = find_close_from(s, start, 0)->0;
    assert(s[start] == '{');
    assert(find_close_from(s, start, 0) == find_close_from(s, start + 1, 1));
    if find_close_from(s, start + 1, 1) is Some {
        lemma_find_close_in_range(s, start + 1, 1);
    }
}

/// All the expansions of a token holding a brace group: for each part in
/// order, the expansions of `prefix + part + suffix`, concatenated.
pub open spec fn expand_all(prefix: Seq<char>, parts: Seq<Seq<char>>, suffix: Seq<char>) -> Seq<
    Seq<char>,
>
    decreases prefix.len() + suffix.len() + max_len(parts), 1nat, parts.len(),
    via expand_all_decreases
{
    if parts.len() == 0 {
        Seq::empty()
    } else {
        expand_spec(prefix + parts[0] + suffix) + expand_all(prefix, parts.drop_first(), suffix)
    }
}

/// The brace expansion of one token: a token without a matched brace group
/// stands unchanged; otherwise the first group's content is split on its
/// top-level commas and each part, spliced between the text before and after
/// the group, is expanded in turn.
pub open spec fn expand_spec(s: Seq<char>) -> Seq<Seq<char>>
    decreases s.len(), 0nat, 0nat,
    via expand_spec_decreases
{
    match brace_group(s) {
        None => seq![s],
        Some((start, end)) => expand_all(
            s.subrange(0, start),
            split_parts(s.subrange(start + 1, end)),
            s.subrange(end + 1, s.len() as int),
        ),
    }
}

#[via_fn]
proof fn expand_all_decreases(prefix: Seq<char>, parts: Seq<Seq<char>>, suffix: Seq<char>) {
    if parts.len() > 0 {
        lemma_max_len_ge(parts, 0);
        lemma_max_len_drop_first(parts);
    }
}

#[via_fn]
proof fn expand_spec_decreases(s: Seq<char>) {
    if brace_group(s) is Some {
        let (start, end) = brace_group(s)->0;
        lemma_brace_group_bounds(s);
        let content = s.subrange(start + 1, end);
        lemma_split_parts_from_len(content, 0, 0, 0);
        lemma_max_len_bound(split_parts(content), content.len() as nat);
    }
}

/// What a stretch of accumulated plain text contributes when the scan
/// flushes it mid-line: nothing when empty, its brace expansion otherwise.
pub open spec fn flush_plain(piece: Seq<char>) -> Seq<Seq<char>> {
    if piece.len() > 0 {
        expand_spec(piece)
    } else {
        Seq::empty()
    }
}

/// What the last stretch contributes when scanning stops: its surrounding
/// blanks are trimmed first; nothing when only blanks remain.
pub open spec fn flush_trimmed(piece: Seq<char>) -> Seq<Seq<char>> {
    if trim_blanks(piece).len() > 0 {
        expand_spec(trim_blanks(piece))
    } else {
        Seq::empty()
    }
}

/// The tokens of `s` from position `i` on, as a character-by-character state
/// machine. `quote` is the quote character currently open, `depth` the brace
/// nesting, `start` where the token under construction began. In priority
/// order, outside quotes: `#` stops the scan (the rest is comment, even
/// inside an open brace group); a quote flushes the accumulated text through
/// brace expansion and copies everything up to the matching quote verbatim
/// into exactly one token (an empty quoted text yields none); `{` and `}`
/// track nesting, a stray `}` being ignored; at depth zero a blank flushes,
/// and `|`, `>` and `>>` flush and then stand as tokens of their own.
/// Unterminated quotes and brace groups are not errors: scanning ends with a
/// trimmed, expanded flush of whatever accumulated.
pub open spec fn tokenize_from(
    s: Seq<char>,
    i: int,
    quote: Option<char>,
    depth: int,
    start: int,
) -> Seq<Seq<char>>
    decreases s.len() - i,
{
    if i < 0 || i >= s.len() {
        flush_trimmed(s.subrange(start, s.len() as int))
    } else {
        let c = s[i];
        if quote is Some {
            if c == quote->0 {
                (if i > start {
                    seq![s.subrange(start, i)]
                } else {
                    Seq::empty()
                }) + tokenize_from(s, i + 1, None, depth, i + 1)
            } else {
                tokenize_from(s, i + 1, quote, depth, start)
            }
        } else if c == '#' {
            flush_trimmed(s.subrange(start, i))
        } else if c == '\'' || c == '"' {
            flush_plain(s.subrange(start, i)) + tokenize_from(s, i + 1, Some(c), depth, i + 1)
        } else if c == '{' {
            tokenize_from(s, i + 1, quote, depth + 1, start)
        } else if c == '}' {
            tokenize_from(
                s,
                i + 1,
                quote,
                if depth > 0 {
                    depth - 1
                } else {
                    0
                },
                start,
            )
        } else if depth == 0 && is_blank(c) {
            flush_plain(s.subrange(start, i)) + tokenize_from(s, i + 1, quote, depth, i + 1)
        } else if depth == 0 && c == '|' {
            flush_plain(s.subrange(start, i)) + seq![seq!['|']] + tokenize_from(
                s,
                i + 1,
                quote,
                depth,
                i + 1,
            )
        } else if depth == 0 && c == '>' {
            if i + 1 < s.len() && s[i + 1] == '>' {
                flush_plain(s.subrange(start, i)) + seq![seq!['>', '>']] + tokenize_from(
                    s,
                    i + 2,
                    quote,
                    depth,
                    i + 2,
                )
            } else {
                flush_plain(s.subrange(start, i)) + seq![seq!['>']] + tokenize_from(
                    s,
                    i + 1,
                    quote,
                    depth,
                    i + 1,
                )
            }
        } else {
            tokenize_from(s, i + 1, quote, depth, start)
        }
    }
}

/// The token sequence of a whole command line.
pub open spec fn spec_tokenize(s: Seq<char>) -> Seq<Seq<char>> {
    tokenize_from(s, 0, None, 0, 0)
}

/// Brace expansion leaves a token without an opening brace alone: expanding
/// it yields exactly that token, unchanged.
pub proof fn lemma_expand_without_brace(s: Seq<char>)
    requires
        forall|i: int| 0 <= i < s.len() ==> s[i] != '{',
    ensures
        expand_spec(s) == seq![s],
{
    lemma_find_open_none(s, 0);
}

proof fn lemma_find_open_none(s: Seq<char>, i: int)
    requires
        0 <= i,
        forall|q: int| 0 <= q < s.len() ==> s[q] != '{',
    ensures
        find_open_from(s, i) is None,
    decreases s.len() - i,
{
    if i < s.len() {
        lemma_find_open_none(s, i + 1);
    }
}

/// Whether `c` is blank, decided executably.
fn blank(c: char) -> (r: bool)
    ensures
        r == is_blank(c),
{
    c == ' ' || c == '\t'
}

/// Removes surrounding blanks from `s`.
fn trim_blank(s: &str) -> (r: String)
    ensures
        r@ == trim_blanks(s@),
{
    let n = s.unicode_len();
    proof {
        assert(s@.subrange(0, n as int) =~= s@);
    }
    let mut lo: usize = 0;
    while lo < n && blank(s.get_char(lo))
        invariant
            0 <= lo <= n,
            n == s@.len(),
            drop_leading_blanks(s@) == drop_leading_blanks(s@.subrange(lo as int, n as int)),
        decreases n - lo,
    {
        proof {
            assert(s@.subrange(lo as int, n as int).drop_first() =~= s@.subrange(
                lo as int + 1,
                n as int,
            ));
        }
        lo = lo + 1;
    }
    proof {
        assert(drop_leading_blanks(s@) == s@.subrange(lo as int, n as int));
    }
    let mut hi: usize = n;
    while hi > lo && blank(s.get_char(hi - 1))
        invariant
            lo <= hi <= n,
            n == s@.len(),
            drop_leading_blanks(s@) == s@.subrange(lo as int, n as int),
            drop_trailing_blanks(s@.subrange(lo as int, n as int)) == drop_trailing_blanks(
                s@.subrange(lo as int, hi as int),
            ),
        decreases hi,
    {
        proof {
            assert(s@.subrange(lo as int, hi as int).drop_last() =~= s@.subrange(
                lo as int,
                hi as int - 1,
            ));
        }
        hi = hi - 1;
    }
    proof {
        assert(trim_blanks(s@) == s@.subrange(lo as int, hi as int));
    }
    s.substring_char(lo, hi).to_owned()
}

/// Moves every token of `extra` onto the end of `dst`.
fn push_tokens(dst: &mut Vec<String>, extra: Vec<String>)
    ensures
        final(dst).deep_view() == old(dst).deep_view() + extra.deep_view(),
{
    let ghost pre = dst.deep_view();
    let ghost ex = extra.deep_view();
    let mut moved = extra;
    dst.append(&mut moved);
    proof {
        assert(dst.deep_view() =~~= pre + ex);
    }
}

/// Pushes one finished token onto `dst`.
fn push_token(dst: &mut Vec<String>, token: String)
    ensures
        final(dst).deep_view() == old(dst).deep_view() + seq![token@],
{
    let ghost pre = dst.deep_view();
    dst.push(token);
    proof {
        assert(dst.deep_view() =~= pre + seq![token@]);
    }
}

/// Flushes the accumulated stretch `s[start..i]` through brace expansion onto
/// `dst`; an empty stretch contributes nothing.
fn flush_piece(dst: &mut Vec<String>, s: &str, start: usize, i: usize)
    requires
        start <= i <= s@.len(),
    ensures
        final(dst).deep_view() == old(dst).deep_view() + flush_plain(
            s@.subrange(start as int, i as int),
        ),
{
    if i > start {
        let piece = s.substring_char(start, i);
        let ex = SplitArgs::expand_braces(piece);
        push_tokens(dst, ex);
    } else {
        proof {
            assert(s@.subrange(start as int, i as int).len() == 0);
            assert(dst.deep_view() =~= dst.deep_view() + flush_plain(
                s@.subrange(start as int, i as int),
            ));
        }
    }
}

/// A command line split into tokens.
pub struct SplitArgs {
    args: Vec<String>,
}

/// Tokenizing never fails: unbalanced braces and unterminated quotes degrade
/// to literal text. The variant is kept so that a stricter tokenizer can
/// share the interface.
#[derive(Debug, PartialEq, Eq)]
pub enum SplitError {
    UnclosedBrace,
}

impl View for SplitArgs {
    type V = Seq<Seq<char>>;

    closed spec fn view(&self) -> Seq<Seq<char>> {
        self.args.deep_view()
    }
}

impl SplitArgs {
    /// The tokens as owned strings, in order.
    pub fn rebuild(&self) -> (r: Vec<String>)
        ensures
            r.deep_view() == self@,
    {
        let mut r: Vec<String> = Vec::new();
        let mut i: usize = 0;
        while i < self.args.len()
            invariant
                0 <= i <= self.args.len(),
                r@.len() == i,
                forall|q: int| 0 <= q < i ==> r@[q] == self.args@[q],
            decreases self.args.len() - i,
        {
            let x = self.args[i].clone();
            r.push(x);
            i = i + 1;
        }
        proof {
            assert forall|q: int| 0 <= q < r@.len() implies r.deep_view()[q] == self@[q] by {
                assert(r@[q] == self.args@[q]);
            };
            assert(r.deep_view() =~= self@);
        }
        r
    }

    /// Tokenizes one raw command line, as [`spec_tokenize`] states. The
    /// permissive policy makes tokenizing total — unbalanced braces and
    /// unterminated quotes degrade to literal text — so the result is always
    /// `Ok`.
    pub fn split(command: &str) -> (r: Result<SplitArgs, SplitError>)
        ensures
            r is Ok,
            r->Ok_0@ == spec_tokenize(command@),
    {
        let ghost svw = command@;
        let n = command.unicode_len();
        let mut args: Vec<String> = Vec::new();
        let mut quote: Option<char> = None;
        let mut depth: usize = 0;
        let mut start: usize = 0;
        let mut i: usize = 0;
        let mut limit = n;
        while i < n
            invariant_except_break
                limit == n,
            invariant
                0 <= start <= i <= n,
                n == svw.len(),
                svw == command@,
                depth <= i,
                start <= limit <= n,
                spec_tokenize(svw) == args.deep_view() + tokenize_from(
                    svw,
                    i as int,
                    quote,
                    depth as int,
                    start as int,
                ),
            ensures
                start <= limit <= n,
                n == svw.len(),
                svw == command@,
                spec_tokenize(svw) == args.deep_view() + flush_trimmed(
                    svw.subrange(start as int, limit as int),
                ),
            decreases n - i,
        {
            let c = command.get_char(i);
            let ghost pre = args.deep_view();
            match quote {
                Some(q) => {
                    if c == q {
                        let ghost quoted: Seq<Seq<char>> = if i > start {
                            seq![svw.subrange(start as int, i as int)]
                        } else {
                            Seq::empty()
                        };
                        if i > start {
                            let piece = command.substring_char(start, i).to_owned();
                            push_token(&mut args, piece);
                        }
                        proof {
                            assert(args.deep_view() =~= pre + quoted);
                            assert(tokenize_from(svw, i as int, Some(q), depth as int, start as int)
                                == quoted + tokenize_from(
                                svw,
                                i as int + 1,
                                None::<char>,
                                depth as int,
                                i as int + 1,
                            ));
                            assert((pre + quoted) + tokenize_from(
                                svw,
                                i as int + 1,
                                None::<char>,
                                depth as int,
                                i as int + 1,
                            ) =~= pre + (quoted + tokenize_from(
                                svw,
                                i as int + 1,
                                None::<char>,
                                depth as int,
                                i as int + 1,
                            )));
                        }
                        quote = None;
                        start = i + 1;
                    }
                    i = i + 1;
                },
                None => {
                    if c == '#' {
                        proof {
                            assert(tokenize_from(
                                svw,
                                i as int,
                                None::<char>,
                                depth as int,
                                start as int,
                            ) == flush_trimmed(svw.subrange(start as int, i as int)));
                        }
                        limit = i;
                        break ;
                    } else if c == '\'' || c == '"' {
                        flush_piece(&mut args, command, start, i);
                        proof {
                            let fl = flush_plain(svw.subrange(start as int, i as int));
                            let rest = tokenize_from(
                                svw,
                                i as int + 1,
                                Some(c),
                                depth as int,
                                i as int + 1,
                            );
                            assert(tokenize_from(
                                svw,
                                i as int,
                                None::<char>,
                                depth as int,
                                start as int,
                            ) == fl + rest);
                            assert((pre + fl) + rest =~= pre + (fl + rest));
                        }
                        quote = Some(c);
                        start = i + 1;
                        i = i + 1;
                    } else if c == '{' {
                        proof {
                            assert(tokenize_from(
                                svw,
                                i as int,
                                None::<char>,
                                depth as int,
                                start as int,
                            ) == tokenize_from(
                                svw,
                                i as int + 1,
                                None::<char>,
                                depth as int + 1,
                                start as int,
                            ));
                        }
                        depth = depth + 1;
                        i = i + 1;
                    } else if c == '}' {
                        let newdepth = if depth > 0 {
                            depth - 1
                        } else {
                            0
                        };
                        proof {
                            assert(tokenize_from(
                                svw,
                                i as int,
                                None::<char>,
                                depth as int,
                                start as int,
                            ) == tokenize_from(
                                svw,
                                i as int + 1,
                                None::<char>,
                                newdepth as int,
                                start as int,
                            ));
                        }
                        depth = newdepth;
                        i = i + 1;
                    } else if depth == 0 && blank(c) {
                        flush_piece(&mut args, command, start, i);
                        proof {
                            let fl = flush_plain(svw.subrange(start as int, i as int));
                            let rest = tokenize_from(
                                svw,
                                i as int + 1,
                                None::<char>,
                                depth as int,
                                i as int + 1,
                            );
                            assert(tokenize_from(
                                svw,
                                i as int,
                                None::<char>,
                                depth as int,
                                start as int,
                            ) == fl + rest);
                            assert((pre + fl) + rest =~= pre + (fl + rest));
                        }
                        start = i + 1;
                        i = i + 1;
                    } else if depth == 0 && c == '|' {
                        flush_piece(&mut args, command, start, i);
                        push_token(&mut args, "|".to_owned());
                        proof {
                            reveal_strlit("|");
                            assert("|"@ =~= seq!['|']);
                            let fl = flush_plain(svw.subrange(start as int, i as int));
                            let rest = tokenize_from(
                                svw,
                                i as int + 1,
                                None::<char>,
                                depth as int,
                                i as int + 1,
                            );
                            assert(tokenize_from(
                                svw,
                                i as int,
                                None::<char>,
                                depth as int,
                                start as int,
                            ) == fl + seq![seq!['|']] + rest);
                            assert(((pre + fl) + seq![seq!['|']]) + rest =~= pre + ((fl
                                + seq![seq!['|']]) + rest));
                        }
                        start = i + 1;
                        i = i + 1;
                    } else if depth == 0 && c == '>' {
                        flush_piece(&mut args, command, start, i);
                        let ghost fl = flush_plain(svw.subrange(start as int, i as int));
                        let two = i + 1 < n && command.get_char(i + 1) == '>';
                        if two {
                            push_token(&mut args, ">>".to_owned());
                            proof {
                                reveal_strlit(">>");
                                assert(">>"@ =~= seq!['>', '>']);
                                let rest = tokenize_from(
                                    svw,
                                    i as int + 2,
                                    None::<char>,
                                    depth as int,
                                    i as int + 2,
                                );
                                assert(tokenize_from(
                                    svw,
                                    i as int,
                                    None::<char>,
                                    depth as int,
                                    start as int,
                                ) == fl + seq![seq!['>', '>']] + rest);
                                assert(((pre + fl) + seq![seq!['>', '>']]) + rest =~= pre + ((fl
                                    + seq![seq!['>', '>']]) + rest));
                            }
                            start = i + 2;
                            i = i + 2;
                        } else {
                            push_token(&mut args, ">".to_owned());
                            proof {
                                reveal_strlit(">");
                                assert(">"@ =~= seq!['>']);
                                let rest = tokenize_from(
                                    svw,
                                    i as int + 1,
                                    None::<char>,
                                    depth as int,
                                    i as int + 1,
                                );
                                assert(tokenize_from(
                                    svw,
                                    i as int,
                                    None::<char>,
                                    depth as int,
                                    start as int,
                                ) == fl + seq![seq!['>']] + rest);
                                assert(((pre + fl) + seq![seq!['>']]) + rest =~= pre + ((fl
                                    + seq![seq!['>']]) + rest));
                            }
                            start = i + 1;
                            i = i + 1;
                        }
                    } else {
                        proof {
                            assert(tokenize_from(
                                svw,
                                i as int,
                                None::<char>,
                                depth as int,
                                start as int,
                            ) == tokenize_from(
                                svw,
                                i as int + 1,
                                None::<char>,
                                depth as int,
                                start as int,
                            ));
                        }
                        i = i + 1;
                    }
                },
            }
        }
        let ghost pre = args.deep_view();
        let ghost piece = svw.subrange(start as int, limit as int);
        let tail = trim_blank(command.substring_char(start, limit));
        if !tail.as_str().is_empty() {
            let ex = Self::expand_braces(tail.as_str());
            push_tokens(&mut args, ex);
            proof {
                assert(tail@ == trim_blanks(piece));
                assert(args.deep_view() == pre + flush_trimmed(piece));
            }
        } else {
            proof {
                assert(flush_trimmed(piece).len() == 0);
                assert(args.deep_view() =~= pre + flush_trimmed(piece));
            }
        }
        Ok(SplitArgs { args })
    }

    /// Splits a brace group's content on its depth-zero commas and trims each
    /// part.
    pub fn split_brace_content(content: String) -> (parts: Vec<String>)
        ensures
            parts.deep_view() == split_parts(content@),
    {
        let s = content.as_str();
        let n = s.unicode_len();
        let mut parts: Vec<String> = Vec::new();
        let mut depth: i128 = 0;
        let mut last_start: usize = 0;
        let mut i: usize = 0;
        while i < n
            invariant
                0 <= last_start <= i <= n,
                n == s@.len(),
                s@ == content@,
                -(i as int) <= depth as int <= i as int,
                split_parts(content@) == parts.deep_view() + split_parts_from(
                    content@,
                    i as int,
                    depth as int,
                    last_start as int,
                ),
            decreases n - i,
        {
            let c = s.get_char(i);
            if c == '{' {
                depth = depth + 1;
            } else if c == '}' {
                depth = depth - 1;
            } else if c == ',' && depth == 0 {
                let ghost pre = parts.deep_view();
                let ghost head = trim_blanks(content@.subrange(last_start as int, i as int));
                let seg = trim_blank(s.substring_char(last_start, i));
                parts.push(seg);
                proof {
                    assert(split_parts_from(content@, i as int, 0, last_start as int) == seq![head]
                        + split_parts_from(content@, i as int + 1, 0, i as int + 1));
                    assert(parts.deep_view() =~~= pre + seq![head]);
                    assert(pre + seq![head] + split_parts_from(content@, i as int + 1, 0, i as int + 1)
                        =~~= pre + (seq![head] + split_parts_from(
                        content@,
                        i as int + 1,
                        0,
                        i as int + 1,
                    )));
                }
                last_start = i + 1;
            }
            i = i + 1;
        }
        let ghost pre = parts.deep_view();
        let ghost head = trim_blanks(content@.subrange(last_start as int, n as int));
        let seg = trim_blank(s.substring_char(last_start, n));
        parts.push(seg);
        proof {
            assert(split_parts_from(content@, n as int, depth as int, last_start as int)
                == seq![head]);
            assert(parts.deep_view() =~~= pre + seq![head]);
        }
        parts
    }

    /// Expands the first matched brace group of `input` and recurs on each
    /// spliced result; a token without a matched group stands unchanged.
    pub fn expand_braces(input: &str) -> (r: Vec<String>)
        ensures
            r.deep_view() == expand_spec(input@),
        decreases input@.len(),
    {
        let n = input.unicode_len();
        let mut i: usize = 0;
        while i < n && input.get_char(i) != '{'
            invariant
                0 <= i <= n,
                n == input@.len(),
                find_open_from(input@, 0) == find_open_from(input@, i as int),
            decreases n - i,
        {
            i = i + 1;
        }
        if i == n {
            proof {
                assert(find_open_from(input@, n as int) is None);
                assert(brace_group(input@) is None);
            }
            let mut r: Vec<String> = Vec::new();
            r.push(input.to_owned());
            proof {
                assert(r.deep_view() =~~= seq![input@]);
            }
            return r;
        }
        let start = i;
        proof {
            assert(find_open_from(input@, 0) == Some(start as int));
        }
        let mut depth: usize = 0;
        let mut j = start;
        let mut end: usize = n;
        let mut found = false;
        while j < n
            invariant_except_break
                !found,
                start <= j <= n,
                depth <= j,
                find_close_from(input@, start as int, 0) == find_close_from(
                    input@,
                    j as int,
                    depth as int,
                ),
                j == start ==> depth == 0,
                j > start ==> depth >= 1,
            invariant
                n == input@.len(),
                input@[start as int] == '{',
                start < n,
            ensures
                found ==> start < end < n && find_close_from(input@, start as int, 0) == Some(
                    end as int,
                ),
                !found ==> find_close_from(input@, start as int, 0) is None,
            decreases n - j,
        {
            let c = input.get_char(j);
            if c == '}' && depth == 1 {
                end = j;
                found = true;
                break ;
            }
            if c == '{' {
                depth = depth + 1;
            } else if c == '}' {
                depth = depth - 1;
            }
            j = j + 1;
        }
        if !found {
            proof {
                assert(find_close_from(input@, start as int, 0) is None);
                assert(brace_group(input@) is None);
            }
            let mut r: Vec<String> = Vec::new();
            r.push(input.to_owned());
            proof {
                assert(r.deep_view() =~~= seq![input@]);
            }
            return r;
        }
        proof {
            assert(brace_group(input@) == Some((start as int, end as int)));
            lemma_brace_group_bounds(input@);
        }
        let ghost pre = input@.subrange(0, start as int);
        let ghost suf = input@.subrange(end as int + 1, n as int);
        let ghost content_view = input@.subrange(start as int + 1, end as int);
        let prefix = input.substring_char(0, start);
        let suffix = input.substring_char(end + 1, n);
        let content = input.substring_char(start + 1, end).to_owned();
        let parts = Self::split_brace_content(content);
        proof {
            lemma_split_parts_from_len(content_view, 0, 0, 0);
        }
        let ghost dv = parts.deep_view();
        let mut out: Vec<String> = Vec::new();
        proof {
            assert(content@ == content_view);
            assert(dv == split_parts(content_view));
            assert(expand_spec(input@) == expand_all(pre, split_parts(content_view), suf));
            assert(dv.skip(0) =~= dv);
            assert(out.deep_view() =~= Seq::<Seq<char>>::empty());
            assert(Seq::<Seq<char>>::empty() + expand_all(pre, dv, suf) =~= expand_all(
                pre,
                dv,
                suf,
            ));
        }
        let mut k: usize = 0;
        while k < parts.len()
            invariant
                0 <= k <= parts.len(),
                n == input@.len(),
                0 <= start < end < n,
                pre == input@.subrange(0, start as int),
                suf == input@.subrange(end as int + 1, n as int),
                content_view == input@.subrange(start as int + 1, end as int),
                prefix@ == pre,
                suffix@ == suf,
                dv == parts.deep_view(),
                forall|q: int| 0 <= q < dv.len() ==> (#[trigger] dv[q]).len() <= content_view.len(),
                expand_spec(input@) == out.deep_view() + expand_all(pre, dv.skip(k as int), suf),
            decreases parts.len() - k,
        {
            let full = prefix.to_owned().concat(parts[k].as_str()).concat(suffix);
            proof {
                assert(dv[k as int] == parts@[k as int]@);
                assert(full@ == pre + dv[k as int] + suf);
                assert(full@.len() < input@.len());
            }
            let sub = Self::expand_braces(full.as_str());
            let ghost pre_out = out.deep_view();
            push_tokens(&mut out, sub);
            proof {
                assert(dv.skip(k as int).drop_first() =~= dv.skip(k as int + 1));
                assert(dv.skip(k as int)[0] == dv[k as int]);
                assert(expand_all(pre, dv.skip(k as int), suf) == expand_spec(pre + dv[k as int]
                    + suf) + expand_all(pre, dv.skip(k as int + 1), suf));
                assert(pre_out + expand_spec(full@) + expand_all(pre, dv.skip(k as int + 1), suf)
                    =~~= pre_out + (expand_spec(full@) + expand_all(pre, dv.skip(k as int + 1), suf)));
            }
            k = k + 1;
        }
        proof {
            assert(dv.skip(parts.len() as int) =~= Seq::<Seq<char>>::empty());
            assert(expand_all(pre, Seq::<Seq<char>>::empty(), suf) == Seq::<Seq<char>>::empty());
            assert(out.deep_view() + Seq::<Seq<char>>::empty() =~~= out.deep_view());
        }
        out
    }
}

/// Tokenizes a command line straight to owned tokens.
pub fn split_args(command: &str) -> (r: Vec<String>)
    ensures
        r.deep_view() == spec_tokenize(command@),
{
    match SplitArgs::split(command) {
        Ok(sa) => sa.rebuild(),
        Err(_) => vstd::pervasive::unreached(),
    }
}

} // verus!

