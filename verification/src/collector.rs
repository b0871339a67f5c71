//! The context collector: which `git` commands give the patch to describe and
//! the earlier commit messages, and how their output is read. Earlier
//! messages are cut at their first trailer line, so that the style sample
//! teaches no trailers.

use crate::failure::{Failure, FailureView};
use crate::git::{
    output_text, push_arg, query, read_output, text_result, CommandOutput, GitCommand, GitInput,
};
use crate::pattern::{is_match, regex_compiles, regex_matches, regex_source, Pattern};
use crate::text::{
    chars_of, copy_range, decimal, is_whitespace, join, join_chars, lemma_split_concat,
    lemma_split_join, lemma_split_nonempty, lemma_split_of_space, lemma_split_pieces_lack_separator,
    lemma_trim_ignores_padding, lemma_trim_parts, lines, lines_of, push_decimal, split,
    split_chars, string_of, strip_carriage_return, trim, trim_chars, views,
};
use vstd::prelude::*;

verus! {

/// The regular expression for a trailer line: a token of letters, digits and
/// hyphens, a colon, white space, and a value.
pub const TRAILER_PATTERN: &'static str = "^[A-Za-z0-9-]+:\\s+.+$";

/// How many earlier commit messages are asked for as a style sample.
pub const RECENT_MESSAGES: u64 = 100;

/// `git log -p -1`: the last commit, with its message and its patch.
pub open spec fn last_commit_args() -> Seq<Seq<char>> {
    seq!["log"@, "-p"@, "-1"@]
}

/// `git diff -U50`, with `--cached` for the staged changes only.
pub open spec fn diff_args(cached: bool) -> Seq<Seq<char>> {
    if cached {
        seq!["diff"@, "-U50"@, "--cached"@]
    } else {
        seq!["diff"@, "-U50"@]
    }
}

/// `git log -p <base>..HEAD`: the commits since `base`, with their patches.
pub open spec fn branch_patches_args(base: Seq<char>) -> Seq<Seq<char>> {
    seq!["log"@, "-p"@, base + "..HEAD"@]
}

/// `git log -n<count> --no-merges --pretty=format:%B%x00`: the messages of
/// the last `count` commits that are no merges, each followed by a NUL.
pub open spec fn history_args(count: nat) -> Seq<Seq<char>> {
    seq!["log"@, "-n"@ + decimal(count), "--no-merges"@, "--pretty=format:%B%x00"@]
}

/// Whether `line` is a trailer line: whether `pattern` matches the line
/// without the white space around it.
pub open spec fn is_trailer_line(line: Seq<char>, pattern: Seq<char>) -> bool {
    regex_matches(pattern, trim(line))
}

/// The number of lines before the first trailer line; the number of all
/// lines where none is a trailer line.
pub open spec fn trailer_start(lines: Seq<Seq<char>>, pattern: Seq<char>) -> nat
    decreases lines.len(),
{
    if lines.len() == 0 || is_trailer_line(lines.first(), pattern) {
        0
    } else {
        1 + trailer_start(lines.drop_first(), pattern)
    }
}

/// What is kept of one commit message: its lines before the first trailer
/// line, joined by line feeds, without the white space around the whole.
pub open spec fn message_body(message: Seq<char>, pattern: Seq<char>) -> Seq<char> {
    let all = lines(message);
    trim(join(all.take(trailer_start(all, pattern) as int), seq!['\n']))
}

/// The function that cuts a message at its first trailer line.
pub open spec fn cut(pattern: Seq<char>) -> spec_fn(Seq<char>) -> Seq<char> {
    |message: Seq<char>| message_body(message, pattern)
}

/// The test that a text is not empty.
pub open spec fn filled() -> spec_fn(Seq<char>) -> bool {
    |text: Seq<char>| text.len() > 0
}

/// The style sample that a log gives: the log is split at each NUL, each
/// message is cut at its first trailer line, and what is then empty is
/// dropped. The order of the log is kept.
pub open spec fn recent_messages(log: Seq<char>, pattern: Seq<char>) -> Seq<Seq<char>> {
    split(log, '\0').map_values(cut(pattern)).filter(filled())
}

/// The working diff that a `git diff` gave: its text, which must not be
/// empty.
pub open spec fn working_diff(output: crate::git::CommandOutputView) -> Result<
    Seq<char>,
    FailureView,
> {
    match output_text(output) {
        Ok(text) => if text.len() == 0 {
            Err(FailureView::EmptyChangeSet)
        } else {
            Ok(text)
        },
        Err(e) => Err(e),
    }
}

/// `trailer_start` is the place of the first trailer line: no line before it
/// is a trailer line, and the line at it, if there is one, is.
pub proof fn lemma_trailer_start_is_first(lines: Seq<Seq<char>>, pattern: Seq<char>)
    ensures
        trailer_start(lines, pattern) <= lines.len(),
        forall|i: int|
            0 <= i < trailer_start(lines, pattern) ==> !is_trailer_line(#[trigger] lines[i], pattern),
        trailer_start(lines, pattern) < lines.len() ==> is_trailer_line(
            lines[trailer_start(lines, pattern) as int],
            pattern,
        ),
    decreases lines.len(),
{
    if lines.len() == 0 || is_trailer_line(lines.first(), pattern) {
    } else {
        let rest = lines.drop_first();
        lemma_trailer_start_is_first(rest, pattern);
        assert forall|i: int| 0 <= i < trailer_start(lines, pattern) implies !is_trailer_line(
            #[trigger] lines[i],
            pattern,
        ) by {
            if i > 0 {
                assert(lines[i] == rest[i - 1]);
            }
        }
        assert(trailer_start(lines, pattern) < lines.len() ==> lines[trailer_start(
            lines,
            pattern,
        ) as int] == rest[trailer_start(rest, pattern) as int]);
    }
}

/// A place before which no line is a trailer line, and at which a trailer
/// line stands or the lines end, is `trailer_start`.
pub proof fn lemma_first_trailer_is_trailer_start(
    lines: Seq<Seq<char>>,
    pattern: Seq<char>,
    k: int,
)
    requires
        0 <= k <= lines.len(),
        forall|i: int| 0 <= i < k ==> !is_trailer_line(#[trigger] lines[i], pattern),
        k < lines.len() ==> is_trailer_line(lines[k], pattern),
    ensures
        trailer_start(lines, pattern) == k,
    decreases k,
{
    if k > 0 {
        let rest = lines.drop_first();
        assert(!is_trailer_line(lines[0], pattern));
        assert forall|i: int| 0 <= i < k - 1 implies !is_trailer_line(
            #[trigger] rest[i],
            pattern,
        ) by {
            assert(rest[i] == lines[i + 1]);
        }
        lemma_first_trailer_is_trailer_start(rest, pattern, k - 1);
    }
}

/// A message is cut at its first trailer line: what is kept are the lines
/// before that line, joined by line feeds, without the white space around
/// the whole. The trailer line and all that follows it are gone.
pub proof fn lemma_message_is_cut_at_first_trailer(
    message: Seq<char>,
    pattern: Seq<char>,
    k: int,
)
    requires
        0 <= k <= lines(message).len(),
        forall|i: int| 0 <= i < k ==> !is_trailer_line(#[trigger] lines(message)[i], pattern),
        k < lines(message).len() ==> is_trailer_line(lines(message)[k], pattern),
    ensures
        message_body(message, pattern) == trim(join(lines(message).take(k), seq!['\n'])),
{
    lemma_first_trailer_is_trailer_start(lines(message), pattern, k);
}

/// No line of a text holds a line feed.
pub proof fn lemma_lines_lack_line_feed(s: Seq<char>)
    ensures
        forall|i: int, j: int|
            0 <= i < lines(s).len() && 0 <= j < lines(s)[i].len() ==> lines(s)[i][j] != '\n',
{
    lemma_split_nonempty(s, '\n');
    lemma_split_pieces_lack_separator(s, '\n');
    let pieces = split(s, '\n');
    assert forall|i: int, j: int|
        0 <= i < lines(s).len() && 0 <= j < lines(s)[i].len() implies lines(s)[i][j] != '\n' by {
        if i < pieces.len() - 1 {
            assert(lines(s)[i] == strip_carriage_return(pieces[i]));
            assert(lines(s)[i][j] == pieces[i][j]);
        } else {
            assert(lines(s)[i] == pieces[pieces.len() - 1]);
        }
    }
}

/// A carriage return at the end of a line does not change what trimming
/// leaves of it.
pub proof fn lemma_trim_ignores_carriage_return(line: Seq<char>)
    ensures
        trim(strip_carriage_return(line)) == trim(line),
{
    if line.len() > 0 && line.last() == '\r' {
        let pad = seq!['\r'];
        assert(crate::text::all_space(pad)) by {
            assert(is_whitespace(pad[0]));
        }
        assert(crate::text::all_space(Seq::<char>::empty()));
        assert(Seq::<char>::empty() + line.drop_last() + pad =~= line);
        lemma_trim_ignores_padding(Seq::<char>::empty(), line.drop_last(), pad);
    }
}

/// No line of what is kept of a message is a trailer line: the first
/// trailer line of the message and all that follows it are gone, and
/// trimming the whole brings no trailer line back.
pub proof fn lemma_body_has_no_trailer_line(message: Seq<char>, pattern: Seq<char>)
    ensures
        forall|i: int|
            0 <= i < lines(message_body(message, pattern)).len() ==> !is_trailer_line(
                #[trigger] lines(message_body(message, pattern))[i],
                pattern,
            ),
{
    let all = lines(message);
    let k = trailer_start(all, pattern) as int;
    lemma_trailer_start_is_first(all, pattern);
    let kept = all.take(k);
    let joined = join(kept, seq!['\n']);
    let body = trim(joined);
    assert(body == message_body(message, pattern));
    lemma_split_nonempty(body, '\n');
    let b = split(body, '\n');
    if kept.len() == 0 {
        assert(joined.len() == 0);
        assert(body.len() == 0);
        assert(b.len() == 1 && b[0].len() == 0);
        assert(lines(body).len() == 0);
    } else {
        lemma_lines_lack_line_feed(message);
        assert forall|i: int, j: int|
            0 <= i < kept.len() && 0 <= j < kept[i].len() implies kept[i][j] != '\n' by {
            assert(kept[i] == all[i]);
        }
        lemma_split_join(kept, '\n');
        let margins = lemma_trim_parts(joined);
        let before = margins.0;
        let after = margins.1;
        let p = split(before, '\n');
        let q = split(after, '\n');
        lemma_split_concat(body, after, '\n');
        lemma_split_concat(before, body + after, '\n');
        assert(before + body + after =~= before + (body + after));
        lemma_split_of_space(before, '\n');
        lemma_split_of_space(after, '\n');
        let g = b.drop_last().push(b.last() + q.first());
        let bq = split(body + after, '\n');
        assert(bq == g + q.drop_first());
        let f = p.drop_last().push(p.last() + bq.first());
        assert(kept == f + bq.drop_first());
        assert(crate::text::all_space(p[p.len() - 1]));
        assert(crate::text::all_space(q[0]));
        assert(crate::text::all_space(Seq::<char>::empty()));
        assert forall|i: int| 0 <= i < lines(body).len() implies !is_trailer_line(
            #[trigger] lines(body)[i],
            pattern,
        ) by {
            assert(i < b.len());
            let piece = b[i];
            assert(trim(lines(body)[i]) == trim(piece)) by {
                if i < b.len() - 1 {
                    assert(lines(body)[i] == strip_carriage_return(piece));
                    lemma_trim_ignores_carriage_return(piece);
                } else {
                    assert(lines(body)[i] == b[b.len() - 1]);
                }
            }
            let left = if i == 0 {
                p.last()
            } else {
                Seq::<char>::empty()
            };
            let right = if i == b.len() - 1 {
                q.first()
            } else {
                Seq::<char>::empty()
            };
            let j = p.len() - 1 + i;
            assert(g[i] =~= piece + right);
            assert(bq[i] == g[i]);
            assert(0 <= j < kept.len());
            assert(kept[j] =~= left + piece + right) by {
                if i == 0 {
                    assert(kept[j] == f[j]);
                    assert(f[j] == p.last() + bq.first());
                    assert(bq.first() == bq[0]);
                } else {
                    assert(kept[j] == bq.drop_first()[j - f.len()]);
                    assert(bq.drop_first()[i - 1] == bq[i]);
                }
            }
            lemma_trim_ignores_padding(left, piece, right);
            assert(kept[j] == all[j]);
            assert(!is_trailer_line(all[j], pattern));
        }
    }
}

/// No line of a message of the style sample is a trailer line.
pub proof fn lemma_recent_messages_have_no_trailer_line(log: Seq<char>, pattern: Seq<char>)
    ensures
        forall|m: int, i: int|
            0 <= m < recent_messages(log, pattern).len() && 0 <= i < lines(
                recent_messages(log, pattern)[m],
            ).len() ==> !is_trailer_line(
                #[trigger] lines(recent_messages(log, pattern)[m])[i],
                pattern,
            ),
{
    let pieces = split(log, '\0');
    let cut_all = pieces.map_values(cut(pattern));
    let sample = recent_messages(log, pattern);
    assert forall|m: int, i: int|
        0 <= m < sample.len() && 0 <= i < lines(sample[m]).len() implies !is_trailer_line(
        #[trigger] lines(sample[m])[i],
        pattern,
    ) by {
        assert(sample.contains(sample[m]));
        cut_all.lemma_filter_contains_rev(filled(), sample[m]);
        let n = choose|n: int| 0 <= n < cut_all.len() && cut_all[n] == sample[m];
        assert(sample[m] == message_body(pieces[n], pattern));
        lemma_body_has_no_trailer_line(pieces[n], pattern);
    }
}

/// The style sample holds no empty text: a message of which nothing is left
/// is dropped.
pub proof fn lemma_recent_messages_are_filled(log: Seq<char>, pattern: Seq<char>)
    ensures
        forall|i: int|
            0 <= i < recent_messages(log, pattern).len() ==> (#[trigger] recent_messages(
                log,
                pattern,
            )[i]).len() > 0,
{
    let cut_all = split(log, '\0').map_values(cut(pattern));
    assert forall|i: int| 0 <= i < recent_messages(log, pattern).len() implies (
    #[trigger] recent_messages(log, pattern)[i]).len() > 0 by {
        cut_all.lemma_filter_pred(filled(), i);
    }
}

/// Nothing of a message is kept where its first line is a trailer line.
pub proof fn lemma_leading_trailer_leaves_nothing(message: Seq<char>, pattern: Seq<char>)
    requires
        lines(message).len() > 0,
        is_trailer_line(lines(message).first(), pattern),
    ensures
        message_body(message, pattern).len() == 0,
{
    let all = lines(message);
    assert(all.take(0) == Seq::<Seq<char>>::empty());
}

/// The command that gives the last commit.
pub fn last_commit_command() -> (command: GitCommand)
    ensures
        command@ == query(last_commit_args()),
{
    let mut args: Vec<String> = Vec::new();
    assert(args.deep_view() == Seq::<Seq<char>>::empty());
    push_arg(&mut args, "log");
    push_arg(&mut args, "-p");
    push_arg(&mut args, "-1");
    assert(args.deep_view() == last_commit_args());
    GitCommand { args, input: GitInput::Nothing }
}

/// The command that gives the working diff; with `cached`, that of the
/// staged changes only.
pub fn diff_command(cached: bool) -> (command: GitCommand)
    ensures
        command@ == query(diff_args(cached)),
{
    let mut args: Vec<String> = Vec::new();
    assert(args.deep_view() == Seq::<Seq<char>>::empty());
    push_arg(&mut args, "diff");
    push_arg(&mut args, "-U50");
    if cached {
        push_arg(&mut args, "--cached");
    }
    assert(args.deep_view() == diff_args(cached));
    GitCommand { args, input: GitInput::Nothing }
}

/// The command that gives the commits since `base`.
pub fn branch_patches_command(base: &str) -> (command: GitCommand)
    ensures
        command@ == query(branch_patches_args(base@)),
{
    let mut args: Vec<String> = Vec::new();
    assert(args.deep_view() == Seq::<Seq<char>>::empty());
    push_arg(&mut args, "log");
    push_arg(&mut args, "-p");
    let range = crate::text::append_str(base, "..HEAD");
    push_arg(&mut args, range.as_str());
    assert(args.deep_view() == branch_patches_args(base@));
    GitCommand { args, input: GitInput::Nothing }
}

/// The command that gives the messages of the last `count` commits.
pub fn history_command(count: u64) -> (command: GitCommand)
    ensures
        command@ == query(history_args(count as nat)),
{
    let mut args: Vec<String> = Vec::new();
    assert(args.deep_view() == Seq::<Seq<char>>::empty());
    push_arg(&mut args, "log");
    let mut limit = "-n".to_owned();
    push_decimal(&mut limit, count);
    push_arg(&mut args, limit.as_str());
    push_arg(&mut args, "--no-merges");
    push_arg(&mut args, "--pretty=format:%B%x00");
    assert(args.deep_view() == history_args(count as nat));
    GitCommand { args, input: GitInput::Nothing }
}

/// The last commit, as `git log -p -1` gave it.
pub fn get_last_commit(output: CommandOutput) -> (r: Result<String, Failure>)
    ensures
        text_result(r) == output_text(output@),
{
    read_output(output)
}

/// The commits of the branch, as `git log -p <base>..HEAD` gave them.
pub fn get_branch_patches(output: CommandOutput) -> (r: Result<String, Failure>)
    ensures
        text_result(r) == output_text(output@),
{
    read_output(output)
}

/// The working diff, as `git diff` gave it. An empty diff is an error: there
/// is nothing to describe.
pub fn get_diff(output: CommandOutput) -> (r: Result<String, Failure>)
    ensures
        text_result(r) == working_diff(output@),
{
    let text = read_output(output)?;
    if text.as_str().unicode_len() == 0 {
        return Err(Failure::EmptyChangeSet);
    }
    Ok(text)
}

/// What is kept of one commit message.
pub fn cut_message(message: &Vec<char>, pattern: &Pattern) -> (body: Vec<char>)
    ensures
        body@ == message_body(message@, regex_source(pattern)),
{
    let all = lines_of(message);
    let ghost source = regex_source(pattern);
    let ghost all_lines = lines(message@);
    let mut kept: Vec<Vec<char>> = Vec::new();
    let mut i: usize = 0;
    assert(all_lines.take(0) == views(kept@));
    while i < all.len()
        invariant
            i <= all.len(),
            views(all@) == all_lines,
            source == regex_source(pattern),
            views(kept@) == all_lines.take(i as int),
            forall|k: int| 0 <= k < i ==> !is_trailer_line(#[trigger] all_lines[k], source),
        ensures
            i < all.len() ==> is_trailer_line(all_lines[i as int], source),
        decreases all.len() - i,
    {
        assert(all_lines[i as int] == all[i as int]@);
        let trimmed = trim_chars(&all[i]);
        let line = string_of(&trimmed);
        if is_match(pattern, line.as_str()) {
            break ;
        }
        let copy = copy_range(&all[i], 0, all[i].len());
        assert(copy@ == all[i as int]@);
        let ghost before = views(kept@);
        kept.push(copy);
        assert(views(kept@) == before.push(copy@));
        assert(all_lines.take(i + 1) == all_lines.take(i as int).push(all_lines[i as int]));
        i = i + 1;
    }
    proof {
        lemma_first_trailer_is_trailer_start(all_lines, source, i as int);
    }
    let mut line_feed: Vec<char> = Vec::new();
    line_feed.push('\n');
    assert(line_feed@ == seq!['\n']);
    let joined = join_chars(&kept, &line_feed);
    trim_chars(&joined)
}

/// The style sample that `log` gives, with `pattern` as the test for
/// trailer lines.
pub fn strip_trailers(log: &str, pattern: &Pattern) -> (messages: Vec<String>)
    ensures
        messages.deep_view() == recent_messages(log@, regex_source(pattern)),
{
    let chars = chars_of(log);
    let pieces = split_chars(&chars, '\0');
    let ghost source = regex_source(pattern);
    let ghost all = split(log@, '\0');
    let mut messages: Vec<String> = Vec::new();
    let mut i: usize = 0;
    proof {
        reveal(Seq::filter);
        assert(all.take(0).map_values(cut(source)) == Seq::<Seq<char>>::empty());
        assert(messages.deep_view() == Seq::<Seq<char>>::empty());
    }
    while i < pieces.len()
        invariant
            i <= pieces.len(),
            views(pieces@) == all,
            source == regex_source(pattern),
            messages.deep_view() == all.take(i as int).map_values(cut(source)).filter(filled()),
        decreases pieces.len() - i,
    {
        let body = cut_message(&pieces[i], pattern);
        proof {
            reveal(Seq::filter);
            let now = all.take(i + 1).map_values(cut(source));
            let before = all.take(i as int).map_values(cut(source));
            assert(all[i as int] == pieces[i as int]@);
            assert(now.drop_last() == before);
            assert(now.last() == body@);
        }
        if body.len() > 0 {
            let text = string_of(&body);
            let ghost old_view = messages.deep_view();
            messages.push(text);
            assert(messages.deep_view() == old_view.push(body@));
        }
        i = i + 1;
    }
    assert(all.take(pieces.len() as int) == all);
    messages
}

/// The style sample that the output of the history command gives, or why
/// there is none: the command has failed, or the trailer pattern does not
/// compile.
pub open spec fn history_messages(output: crate::git::CommandOutputView) -> Result<
    Seq<Seq<char>>,
    FailureView,
> {
    match output_text(output) {
        Ok(log) => if regex_compiles(TRAILER_PATTERN@) {
            Ok(recent_messages(log, TRAILER_PATTERN@))
        } else {
            Err(FailureView::PatternRejected)
        },
        Err(e) => Err(e),
    }
}

/// The earlier commit messages, as the history command gave them, each cut
/// at its first trailer line. The trailer pattern is compiled here.
pub fn get_last_git_messages(output: CommandOutput) -> (r: Result<Vec<String>, Failure>)
    ensures
        match r {
            Ok(messages) => history_messages(output@) == Ok::<Seq<Seq<char>>, FailureView>(
                messages.deep_view(),
            ),
            Err(e) => history_messages(output@) == Err::<Seq<Seq<char>>, FailureView>(e@),
        },
{
    let log = read_output(output)?;
    let pattern = Pattern::new(TRAILER_PATTERN)?;
    Ok(strip_trailers(log.as_str(), &pattern))
}

} // verus!
