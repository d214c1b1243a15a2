//! How commits, branches, tags and paragraphs are written on the pages.

use crate::stats::{Arithmetic, Model, Operation, Relation};
use crate::text::characters;
use crate::times::TimeWithUnit;
use vstd::prelude::*;
use vstd::utf8::encode_utf8;

verus! {

/// The error of a page that cannot be written.
#[verifier::external_type_specification]
#[verifier::external_body]
pub struct ExAskamaError(askama::Error);

/// A time in the unit that it is best read in.
pub fn to_ns<
    F: Copy,
    N: Fn(u64) -> F,
    O: Fn(Operation, F, F) -> F,
    R: Fn(Relation, F, F) -> bool,
    W: Fn(F) -> u64,
>(duration: &F, arithmetic: &Arithmetic<N, O, R, W>) -> (time: Result<
    TimeWithUnit<F>,
    askama::Error,
>)
    requires
        arithmetic.is_total(),
    ensures
        time matches Ok(t) && t.nano == *duration && (forall|model: Model<F>| #[trigger]
            arithmetic.follows(model) ==> t.unit == model.readable(*duration)),
{
    Ok(TimeWithUnit::new(*duration, arithmetic))
}

/// How a link to a commit begins.
pub const COMMIT_LINK: &'static str = "<a href=\"https://github.com/meilisearch/meilisearch/commit/";

/// How a link to a branch or a tag begins.
pub const TREE_LINK: &'static str = "<a href=\"https://github.com/meilisearch/meilisearch/tree/";

/// The number of bytes that a text takes.
pub open spec fn byte_len(text: Seq<char>) -> nat {
    encode_utf8(text).len()
}

/// The shortest beginning of `text` that takes at least `len` bytes; all of it if it is shorter.
pub open spec fn beginning(text: Seq<char>, len: int) -> Seq<char>
    decreases text.len(),
{
    if len <= 0 || text.len() == 0 {
        Seq::empty()
    } else {
        seq![text[0]] + beginning(text.drop_first(), len - byte_len(seq![text[0]]))
    }
}

/// A text of at most `len` bytes as it is; a longer one cut off there, with an ellipsis.
pub open spec fn shortened(text: Seq<char>, len: nat) -> Seq<char> {
    if byte_len(text) <= len {
        text
    } else {
        beginning(text, len as int) + "..."@
    }
}

/// Calls `truncate` of `askama::filters`, which never fails: it keeps a text of at most `len`
/// bytes, and cuts a longer one off at the first end of a character from there on.
#[verifier::external_body]
fn truncate(text: &str, len: usize) -> (short: Result<String, askama::Error>)
    ensures
        match short {
            Ok(s) => s@ == shortened(text@, len as nat),
            Err(_) => false,
        },
{
    askama::filters::truncate(text, len)
}

/// A link that begins with `start`, leads to `target` and shows `inner`.
pub open spec fn link_text(start: Seq<char>, target: Seq<char>, inner: Seq<char>) -> Seq<char> {
    start + target + "\">"@ + inner + "</a>"@
}

/// Writes a link.
fn link(start: &str, target: &str, inner: &str) -> (text: String)
    ensures
        text@ == link_text(start@, target@, inner@),
{
    start.to_string().concat(target).concat("\">").concat(inner).concat("</a>")
}

/// A link to a commit that shows the beginning of its hash.
pub open spec fn commit_text(sha1: Seq<char>) -> Seq<char> {
    commit_link_text(sha1, shortened(sha1, 9))
}

/// A link to a commit that shows `inner`.
pub open spec fn commit_link_text(sha1: Seq<char>, inner: Seq<char>) -> Seq<char> {
    link_text(COMMIT_LINK@, sha1, inner)
}

/// A link to a commit that shows the beginning of its hash.
pub fn commit(sha1: &str) -> (text: Result<String, askama::Error>)
    ensures
        text matches Ok(t) && t@ == commit_text(sha1@),
{
    let truncated_sha1 = match truncate(sha1, 9) {
        Ok(short) => short,
        Err(error) => return Err(error),
    };
    commit_link(sha1, truncated_sha1.as_str())
}

/// A link to a commit that shows `inner`.
pub fn commit_link(sha1: &str, inner: &str) -> (text: Result<String, askama::Error>)
    ensures
        text matches Ok(t) && t@ == commit_link_text(sha1@, inner@),
{
    Ok(link(COMMIT_LINK, sha1, inner))
}

/// What follows the last slash of a text; all of it if it has none.
pub open spec fn last_part(text: Seq<char>) -> Seq<char>
    decreases text.len(),
{
    if text.len() == 0 || text.last() == '/' {
        Seq::empty()
    } else {
        last_part(text.drop_last()).push(text.last())
    }
}

/// The last part is the end of the text, and the character before it, if any, is a slash.
proof fn last_part_from(text: Seq<char>, from: int)
    requires
        0 <= from <= text.len(),
        forall|i: int| from <= i < text.len() ==> text[i] != '/',
        from > 0 ==> text[from - 1] == '/',
    ensures
        last_part(text) == text.subrange(from, text.len() as int),
    decreases text.len(),
{
    if from < text.len() {
        let shorter = text.drop_last();
        last_part_from(shorter, from);
        assert(text.subrange(from, text.len() as int) =~= shorter.subrange(
            from,
            shorter.len() as int,
        ).push(text.last()));
    } else {
        assert(text.subrange(from, text.len() as int) =~= Seq::empty());
    }
}

/// A link to a branch, of which only the part after the last slash is used.
pub open spec fn branch_text(branch_ref: Seq<char>) -> Seq<char> {
    link_text(TREE_LINK@, last_part(branch_ref), last_part(branch_ref))
}

/// A link to a tag.
pub open spec fn tag_text(tag_ref: Seq<char>) -> Seq<char> {
    link_text(TREE_LINK@, tag_ref, tag_ref)
}

/// A link to a branch, of which only the part after the last slash is used.
pub fn branch(branch_ref: &str) -> (text: Result<String, askama::Error>)
    ensures
        text matches Ok(t) && t@ == branch_text(branch_ref@),
{
    let chars = characters(branch_ref);
    let mut from: usize = chars.len();
    while from > 0 && chars[from - 1] != '/'
        invariant
            chars@ == branch_ref@,
            from <= chars@.len(),
            forall|i: int| from <= i < chars@.len() ==> chars@[i] != '/',
        decreases from,
    {
        from -= 1;
    }
    proof {
        last_part_from(branch_ref@, from as int);
    }
    let branch_name = branch_ref.substring_char(from, chars.len());
    Ok(link(TREE_LINK, branch_name, branch_name))
}

/// A link to a tag.
pub fn tag(tag_ref: &str) -> (text: Result<String, askama::Error>)
    ensures
        text matches Ok(t) && t@ == tag_text(tag_ref@),
{
    Ok(link(TREE_LINK, tag_ref, tag_ref))
}

/// `text` begins with `mark`.
pub open spec fn begins_with(text: Seq<char>, mark: Seq<char>) -> bool {
    mark.len() <= text.len() && text.subrange(0, mark.len() as int) == mark
}

/// `text` ends with `mark`.
pub open spec fn ends_with(text: Seq<char>, mark: Seq<char>) -> bool {
    mark.len() <= text.len() && text.subrange(text.len() - mark.len(), text.len() as int) == mark
}

/// `text` without the marks at its beginning, however often the mark stands there.
pub open spec fn trimmed_start(text: Seq<char>, mark: Seq<char>) -> Seq<char>
    decreases text.len(),
{
    if mark.len() > 0 && begins_with(text, mark) {
        trimmed_start(text.subrange(mark.len() as int, text.len() as int), mark)
    } else {
        text
    }
}

/// `text` without the marks at its end, however often the mark stands there.
pub open spec fn trimmed_end(text: Seq<char>, mark: Seq<char>) -> Seq<char>
    decreases text.len(),
{
    if mark.len() > 0 && ends_with(text, mark) {
        trimmed_end(text.subrange(0, text.len() - mark.len()), mark)
    } else {
        text
    }
}

/// `text` without the marks of a paragraph around it.
pub open spec fn without_outer_p(text: Seq<char>) -> Seq<char> {
    trimmed_end(trimmed_start(text, "<p>"@), "</p>"@)
}

/// Tells whether `mark` stands in `text` at `at`.
fn stands_at(text: &Vec<char>, at: usize, mark: &Vec<char>) -> (stands: bool)
    requires
        at + mark@.len() <= text@.len(),
    ensures
        stands == (text@.subrange(at as int, at + mark@.len()) == mark@),
{
    let mut i: usize = 0;
    while i < mark.len()
        invariant
            at + mark@.len() <= text.len(),
            i <= mark@.len(),
            forall|j: int| 0 <= j < i ==> text@[at + j] == mark@[j],
        decreases mark.len() - i,
    {
        if text[at + i] != mark[i] {
            assert(text@.subrange(at as int, at + mark@.len())[i as int] != mark@[i as int]);
            return false;
        }
        i += 1;
    }
    assert(text@.subrange(at as int, at + mark@.len()) =~= mark@);
    true
}

/// Takes the marks of a paragraph away from around a text.
pub fn trim_outer_p(text: &str) -> (trimmed: Result<String, askama::Error>)
    ensures
        trimmed matches Ok(t) && t@ == without_outer_p(text@),
{
    let chars = characters(text);
    let opening = characters("<p>");
    let closing = characters("</p>");
    proof {
        reveal_strlit("<p>");
        reveal_strlit("</p>");
    }
    let mut from: usize = 0;
    let mut to: usize = chars.len();
    assert(text@.subrange(0, to as int) =~= text@);
    while opening.len() <= to - from && stands_at(&chars, from, &opening)
        invariant
            chars@ == text@,
            opening@ == "<p>"@,
            opening@.len() == 3,
            from <= to,
            to == chars@.len(),
            trimmed_start(text@, "<p>"@) == trimmed_start(
                text@.subrange(from as int, to as int),
                "<p>"@,
            ),
        decreases to - from,
    {
        let ghost rest = text@.subrange(from as int, to as int);
        proof {
            assert(rest.subrange(0, 3) =~= text@.subrange(from as int, from + 3));
            assert(rest.subrange(3, rest.len() as int) =~= text@.subrange(from + 3, to as int));
        }
        from += opening.len();
    }
    let ghost inner = text@.subrange(from as int, to as int);
    proof {
        if begins_with(inner, "<p>"@) {
            assert(inner.subrange(0, 3) =~= text@.subrange(from as int, from + 3));
        }
        assert(inner == trimmed_start(text@, "<p>"@));
    }
    while closing.len() <= to - from && stands_at(&chars, to - closing.len(), &closing)
        invariant
            chars@ == text@,
            closing@ == "</p>"@,
            closing@.len() == 4,
            from <= to <= chars@.len(),
            trimmed_end(inner, "</p>"@) == trimmed_end(
                text@.subrange(from as int, to as int),
                "</p>"@,
            ),
        decreases to - from,
    {
        let ghost rest = text@.subrange(from as int, to as int);
        proof {
            assert(rest.subrange(rest.len() - 4, rest.len() as int) =~= text@.subrange(
                to - 4,
                to as int,
            ));
            assert(rest.subrange(0, rest.len() - 4) =~= text@.subrange(from as int, to - 4));
        }
        to -= closing.len();
    }
    proof {
        let rest = text@.subrange(from as int, to as int);
        if ends_with(rest, "</p>"@) {
            assert(rest.subrange(rest.len() - 4, rest.len() as int) =~= text@.subrange(
                to - 4,
                to as int,
            ));
        }
    }
    Ok(text.substring_char(from, to).to_string())
}

/// The name that a branch is shown under is an end of its reference and has no slash; a name
/// without a slash is shown as it is.
pub proof fn branch_name_is_the_last_part(branch_ref: Seq<char>)
    ensures
        !last_part(branch_ref).contains('/'),
        ends_with(branch_ref, last_part(branch_ref)),
        !branch_ref.contains('/') ==> last_part(branch_ref) == branch_ref,
        last_part(last_part(branch_ref)) == last_part(branch_ref),
    decreases branch_ref.len(),
{
    if branch_ref.len() > 0 && branch_ref.last() != '/' {
        let shorter = branch_ref.drop_last();
        branch_name_is_the_last_part(shorter);
        let name = last_part(branch_ref);
        assert forall|i: int| 0 <= i < name.len() implies name[i] != '/' by {
            if i < name.len() - 1 {
                assert(name[i] == last_part(shorter)[i]);
                assert(last_part(shorter).contains(name[i]));
            }
        }
        assert(branch_ref.subrange(branch_ref.len() - name.len(), branch_ref.len() as int) =~= name)
            by {
            let tail = shorter.subrange(
                shorter.len() - last_part(shorter).len(),
                shorter.len() as int,
            );
            assert(tail == last_part(shorter));
            assert forall|i: int| 0 <= i < name.len() implies branch_ref[branch_ref.len()
                - name.len() + i] == #[trigger] name[i] by {
                if i < name.len() - 1 {
                    assert(tail[i] == name[i]);
                }
            }
        }
        if !branch_ref.contains('/') {
            assert(!shorter.contains('/')) by {
                if shorter.contains('/') {
                    let i = choose|i: int| 0 <= i < shorter.len() && shorter[i] == '/';
                    assert(branch_ref[i] == '/');
                }
            }
            assert(name =~= branch_ref);
        }
        last_part_from(name, 0);
        assert(name.subrange(0, name.len() as int) =~= name);
    } else {
        assert(branch_ref.subrange(branch_ref.len() as int, branch_ref.len() as int)
            =~= Seq::<char>::empty());
        if branch_ref.len() > 0 {
            assert(branch_ref[branch_ref.len() - 1] == '/');
        } else {
            assert(branch_ref =~= Seq::<char>::empty());
        }
    }
}

/// After marks have been taken from its beginning, a text does not begin with the mark.
proof fn trimmed_start_is_bare(text: Seq<char>, mark: Seq<char>)
    requires
        mark.len() > 0,
    ensures
        !begins_with(trimmed_start(text, mark), mark),
    decreases text.len(),
{
    if begins_with(text, mark) {
        trimmed_start_is_bare(text.subrange(mark.len() as int, text.len() as int), mark);
    }
}

/// After marks have been taken from its end, a text does not end with the mark, and it is a
/// beginning of what it was.
proof fn trimmed_end_is_bare(text: Seq<char>, mark: Seq<char>)
    requires
        mark.len() > 0,
    ensures
        !ends_with(trimmed_end(text, mark), mark),
        begins_with(text, trimmed_end(text, mark)),
    decreases text.len(),
{
    if ends_with(text, mark) {
        let shorter = text.subrange(0, text.len() - mark.len());
        trimmed_end_is_bare(shorter, mark);
        let bare = trimmed_end(text, mark);
        assert(text.subrange(0, bare.len() as int) =~= shorter.subrange(0, bare.len() as int));
    } else {
        assert(text.subrange(0, text.len() as int) =~= text);
    }
}

/// Once the marks of a paragraph are taken away none is left at either end, so taking them away
/// a second time changes nothing.
pub proof fn trimming_is_complete(text: Seq<char>)
    ensures
        !begins_with(without_outer_p(text), "<p>"@),
        !ends_with(without_outer_p(text), "</p>"@),
        without_outer_p(without_outer_p(text)) == without_outer_p(text),
{
    reveal_strlit("<p>");
    reveal_strlit("</p>");
    let inner = trimmed_start(text, "<p>"@);
    let bare = without_outer_p(text);
    trimmed_start_is_bare(text, "<p>"@);
    trimmed_end_is_bare(inner, "</p>"@);
    if begins_with(bare, "<p>"@) {
        assert(inner.subrange(0, 3) =~= inner.subrange(0, bare.len() as int).subrange(0, 3));
    }
}

/// Only the marks at the ends are taken away: a text that has none there stays as it is, and one
/// pair of marks around such a text is taken away whole.
pub proof fn trimming_takes_only_marks(text: Seq<char>)
    requires
        !begins_with(text, "<p>"@),
        !ends_with(text, "</p>"@),
    ensures
        without_outer_p(text) == text,
        without_outer_p("<p>"@ + text + "</p>"@) == text,
{
    reveal_strlit("<p>");
    reveal_strlit("</p>");
    let around = "<p>"@ + text + "</p>"@;
    assert(around.subrange(0, 3) =~= "<p>"@);
    assert(around.subrange(3, around.len() as int) =~= text + "</p>"@);
    let rest = text + "</p>"@;
    assert(rest.subrange(rest.len() - 4, rest.len() as int) =~= "</p>"@);
    assert(rest.subrange(0, rest.len() - 4) =~= text);
    if begins_with(rest, "<p>"@) {
        let start = rest.subrange(0, 3);
        assert(start[0] == '<' && start[1] == 'p' && start[2] == '>');
        if text.len() >= 3 {
            assert(text.subrange(0, 3) =~= start);
        } else {
            let end = text.len() as int;
            assert(rest[end] == '<' && rest[end + 1] == '/');
        }
    }
    reveal_with_fuel(trimmed_start, 2);
    reveal_with_fuel(trimmed_end, 2);
}

/// Every character is one byte.
pub open spec fn is_plain(text: Seq<char>) -> bool {
    forall|i: int| 0 <= i < text.len() ==> (#[trigger] text[i] as u32) < 128
}

/// Of a plain text, `len` bytes are `len` characters.
proof fn plain_beginning(text: Seq<char>, len: int)
    requires
        is_plain(text),
        0 <= len <= text.len(),
    ensures
        byte_len(text) == text.len(),
        beginning(text, len) == text.take(len),
    decreases text.len(),
{
    if text.len() > 0 {
        let rest = text.drop_first();
        assert(is_plain(rest)) by {
            assert forall|i: int| 0 <= i < rest.len() implies (#[trigger] rest[i] as u32) < 128 by {
                assert(rest[i] == text[i + 1]);
            }
        }
        assert((text[0] as u32) < 128);
        assert(seq![text[0]].drop_first() =~= Seq::<char>::empty());
        reveal_with_fuel(encode_utf8, 2);
        assert(byte_len(seq![text[0]]) == 1);
        plain_beginning(
            rest,
            if len > 0 {
                len - 1
            } else {
                0
            },
        );
        if len > 0 {
            assert(seq![text[0]] + rest.take(len - 1) =~= text.take(len));
        } else {
            assert(text.take(0) =~= Seq::<char>::empty());
        }
    } else {
        assert(text.take(0) =~= Seq::<char>::empty());
    }
}

/// The link to a commit shows the first nine characters of its hash and an ellipsis, or all of a
/// hash that is no longer than that.
pub proof fn commit_shows_nine_characters(sha1: Seq<char>)
    requires
        is_plain(sha1),
    ensures
        sha1.len() <= 9 ==> shortened(sha1, 9) == sha1,
        sha1.len() > 9 ==> shortened(sha1, 9) == sha1.take(9) + "..."@,
{
    plain_beginning(
        sha1,
        if sha1.len() < 9 {
            sha1.len() as int
        } else {
            9
        },
    );
}

/// A link leads to what it is about and shows its name: a commit by its hash, of which nine
/// characters and an ellipsis are shown, or whatever it is to show; a branch by what follows the
/// last slash; a tag by its name.
pub proof fn links_lead_to_what_they_show(text: Seq<char>, inner: Seq<char>, before: Seq<char>)
    ensures
        is_plain(text) && text.len() > 9 ==> commit_text(text)
            == "<a href=\"https://github.com/meilisearch/meilisearch/commit/"@ + text + "\">"@
            + text.take(9) + "..."@ + "</a>"@,
        is_plain(text) && text.len() <= 9 ==> commit_text(text)
            == "<a href=\"https://github.com/meilisearch/meilisearch/commit/"@ + text + "\">"@ + text
            + "</a>"@,
        commit_link_text(text, inner)
            == "<a href=\"https://github.com/meilisearch/meilisearch/commit/"@ + text + "\">"@
            + inner + "</a>"@,
        !text.contains('/') ==> branch_text(before.push('/') + text)
            == "<a href=\"https://github.com/meilisearch/meilisearch/tree/"@ + text + "\">"@ + text
            + "</a>"@,
        !text.contains('/') ==> branch_text(text)
            == "<a href=\"https://github.com/meilisearch/meilisearch/tree/"@ + text + "\">"@ + text
            + "</a>"@,
        tag_text(text) == "<a href=\"https://github.com/meilisearch/meilisearch/tree/"@ + text
            + "\">"@ + text + "</a>"@,
{
    if is_plain(text) {
        commit_shows_nine_characters(text);
        let start = "<a href=\"https://github.com/meilisearch/meilisearch/commit/"@ + text + "\">"@;
        assert(start + (text.take(9) + "..."@) =~= start + text.take(9) + "..."@);
    }
    if !text.contains('/') {
        let whole = before.push('/') + text;
        branch_name_is_the_last_part(text);
        last_part_from(whole, before.len() as int + 1);
        assert(whole.subrange(before.len() as int + 1, whole.len() as int) =~= text);
    }
}

} // verus!
