//! Asset descriptions that mix user-written text with one AI-generated block
//! delimited by `[AI]` and `[/AI]`.

use vstd::prelude::*;

use crate::text::{
    append_text, chars_of, find, find_from_exec, vec_of_range, lemma_find_from_at_most,
    lemma_find_from_is_first, lemma_find_none_iff, lemma_trim_idempotent,
    lemma_trim_characterized, lemma_trim_keeps_absence, lemma_trim_newline, occurs_at, trim,
    trimmed_range, is_white_space,
};

verus! {

/// The tag that opens the AI block.
pub open spec fn ai_open() -> Seq<char> {
    seq!['[', 'A', 'I', ']']
}

/// The tag that closes the AI block.
pub open spec fn ai_close() -> Seq<char> {
    seq!['[', '/', 'A', 'I', ']']
}

/// A line break.
pub open spec fn newline() -> Seq<char> {
    seq!['\n']
}

/// An existing description split into the text before the AI block, the AI
/// block's content and the text after it.
pub struct ParsedDescription {
    pub pre_user: String,
    pub ai_content: String,
    pub post_user: String,
}

/// The three parts that `parse_description` finds in `d`: the trimmed text
/// before the first `[AI]`, the trimmed text between it and the first `[/AI]`
/// after it, and the trimmed text after that. Without `[AI]` the whole text
/// is user text; without a closing tag everything after `[AI]` is AI content.
pub open spec fn parsed_parts(d: Seq<char>) -> (Seq<char>, Seq<char>, Seq<char>) {
    match find(d, ai_open()) {
        Some(s) => {
            let pre = trim(d.subrange(0, s as int));
            let after = d.subrange((s + ai_open().len()) as int, d.len() as int);
            match find(after, ai_close()) {
                Some(e) => (
                    pre,
                    trim(after.subrange(0, e as int)),
                    trim(after.subrange((e + ai_close().len()) as int, after.len() as int)),
                ),
                None => (pre, trim(after), Seq::empty()),
            }
        },
        None => (trim(d), Seq::empty(), Seq::empty()),
    }
}

/// The AI block for `ai`: the tags on lines of their own around the content.
pub open spec fn ai_block(ai: Seq<char>) -> Seq<char> {
    ai_open() + newline() + ai + newline() + ai_close()
}

/// The description that `build_description` assembles: the AI block with the
/// non-empty user parts before and after it, each on a line of its own.
pub open spec fn assembled(pre: Seq<char>, ai: Seq<char>, post: Seq<char>) -> Seq<char> {
    if pre.len() == 0 && post.len() == 0 {
        ai_block(ai)
    } else if post.len() == 0 {
        pre + newline() + ai_block(ai)
    } else if pre.len() == 0 {
        ai_block(ai) + newline() + post
    } else {
        pre + newline() + ai_block(ai) + newline() + post
    }
}

/// The user text that `join_user_descriptions` gives for the prompt: the
/// non-empty parts, separated by a line break when both are there.
pub open spec fn joined(pre: Seq<char>, post: Seq<char>) -> Seq<char> {
    if pre.len() == 0 && post.len() == 0 {
        Seq::empty()
    } else if post.len() == 0 {
        pre
    } else if pre.len() == 0 {
        post
    } else {
        pre + newline() + post
    }
}

fn ai_open_chars() -> (v: Vec<char>)
    ensures
        v@ == ai_open(),
{
    let mut v: Vec<char> = Vec::new();
    v.push('[');
    v.push('A');
    v.push('I');
    v.push(']');
    assert(v@ =~= ai_open());
    v
}

fn ai_close_chars() -> (v: Vec<char>)
    ensures
        v@ == ai_close(),
{
    let mut v: Vec<char> = Vec::new();
    v.push('[');
    v.push('/');
    v.push('A');
    v.push('I');
    v.push(']');
    assert(v@ =~= ai_close());
    v
}

/// Appends the opening tag, a line break, `ai`, a line break and the closing tag.
fn append_ai_block(s: &mut String, ai: &str)
    ensures
        final(s)@ == old(s)@ + ai_block(ai@),
{
    append_text(s, "[AI]");
    s.push('\n');
    append_text(s, ai);
    s.push('\n');
    append_text(s, "[/AI]");
    proof {
        reveal_strlit("[AI]");
        reveal_strlit("[/AI]");
    }
    assert(final(s)@ =~= old(s)@ + ai_block(ai@));
}

/// Split an existing description into the user-written parts and the AI
/// block content. If no `[AI]` block exists, the whole string is treated as
/// the text before it.
pub fn parse_description(description: &str) -> (r: ParsedDescription)
    ensures
        (r.pre_user@, r.ai_content@, r.post_user@) == parsed_parts(description@),
        find(description@, ai_open()) is None ==> r.pre_user@ == trim(description@)
            && r.ai_content@.len() == 0 && r.post_user@.len() == 0,
{
    let d = chars_of(description);
    let open = ai_open_chars();
    let close = ai_close_chars();
    match find_from_exec(&d, &open, 0) {
        Some(s) => {
            proof {
                lemma_find_from_is_first(d@, open@, 0);
                assert(occurs_at(d@, open@, s as int));
                assert(open@.len() == 4);
                assert(s + 4 <= d@.len());
            }
            let d_len = d.len();
            assert(s + 4 <= d_len);
            let pre_user = trimmed_range(&d, 0, s);
            let after_start = s + 4;
            let ghost after = d@.subrange(after_start as int, d@.len() as int);
            let after_chars = vec_of_range(&d, after_start, d.len());
            match find_from_exec(&after_chars, &close, 0) {
                Some(e) => {
                    proof {
                        lemma_find_from_is_first(after, close@, 0);
                        assert(occurs_at(after, close@, e as int));
                    }
                    let ai_content = trimmed_range(&after_chars, 0, e);
                    let post_user = trimmed_range(&after_chars, e + 5, after_chars.len());
                    ParsedDescription { pre_user, ai_content, post_user }
                },
                None => {
                    let ai_content = trimmed_range(&after_chars, 0, after_chars.len());
                    assert(after_chars@.subrange(0, after_chars@.len() as int) =~= after);
                    ParsedDescription { pre_user, ai_content, post_user: String::new() }
                },
            }
        },
        None => {
            let pre_user = trimmed_range(&d, 0, d.len());
            assert(d@.subrange(0, d@.len() as int) =~= description@);
            ParsedDescription { pre_user, ai_content: String::new(), post_user: String::new() }
        },
    }
}

/// Assemble a description from user-written parts and new AI content.
pub fn build_description(pre_user: &str, ai_content: &str, post_user: &str) -> (r: String)
    ensures
        r@ == assembled(pre_user@, ai_content@, post_user@),
{
    let mut s = String::new();
    if !pre_user.is_empty() {
        append_text(&mut s, pre_user);
        s.push('\n');
    }
    append_ai_block(&mut s, ai_content);
    if !post_user.is_empty() {
        s.push('\n');
        append_text(&mut s, post_user);
    }
    assert(s@ =~= assembled(pre_user@, ai_content@, post_user@));
    s
}

/// Concatenate the pre and post user description parts for use in the
/// prompt template.
pub fn join_user_descriptions(pre_user: &str, post_user: &str) -> (r: String)
    ensures
        r@ == joined(pre_user@, post_user@),
        post_user@.len() == 0 ==> r@ == pre_user@,
        pre_user@.len() == 0 ==> r@ == post_user@,
        pre_user@.len() > 0 && post_user@.len() > 0 ==> r@ == pre_user@ + seq!['\n']
            + post_user@,
{
    let mut s = String::new();
    append_text(&mut s, pre_user);
    if !pre_user.is_empty() && !post_user.is_empty() {
        s.push('\n');
    }
    append_text(&mut s, post_user);
    assert(s@ =~= joined(pre_user@, post_user@));
    s
}

/// A tag that follows a line break is found right there when the text
/// before the break does not hold it, since no tag holds a line break.
proof fn lemma_tag_after_line(a: Seq<char>, tag: Seq<char>, rest: Seq<char>)
    requires
        tag.len() > 0,
        forall|k: int| 0 <= k < tag.len() ==> tag[k] != '\n',
        find(a, tag) is None,
    ensures
        find(a + newline() + tag + rest, tag) == Some((a.len() + 1) as nat),
{
    let h = a + newline() + tag + rest;
    let p: int = a.len() + 1int;
    assert(h.subrange(p, p + tag.len()) =~= tag);
    lemma_find_none_iff(a, tag);
    assert forall|j: int| 0 <= j < p implies !occurs_at(h, tag, j) by {
        if occurs_at(h, tag, j) {
            if j + tag.len() <= a.len() {
                assert(h.subrange(j, j + tag.len()) =~= a.subrange(j, j + tag.len()));
                assert(occurs_at(a, tag, j));
            } else {
                assert(h.subrange(j, j + tag.len())[a.len() - j] == h[a.len() as int]);
            }
        }
    }
    lemma_find_from_at_most(h, tag, 0, p as nat);
    lemma_find_from_is_first(h, tag, 0);
}

/// A text that starts with a tag has it at position 0.
proof fn lemma_tag_at_start(tag: Seq<char>, rest: Seq<char>)
    ensures
        find(tag + rest, tag) == Some(0nat),
{
    assert((tag + rest).subrange(0, tag.len() as int) =~= tag);
}

/// What a text does not hold, a line break followed by it does not hold
/// either, if it holds no line break itself.
proof fn lemma_absent_after_newline(a: Seq<char>, tag: Seq<char>)
    requires
        tag.len() > 0,
        forall|k: int| 0 <= k < tag.len() ==> tag[k] != '\n',
        find(a, tag) is None,
    ensures
        find(newline() + a, tag) is None,
{
    let h = newline() + a;
    lemma_find_none_iff(a, tag);
    lemma_find_none_iff(h, tag);
    assert forall|j: int| !occurs_at(h, tag, j) by {
        if occurs_at(h, tag, j) {
            if j == 0 {
                assert(h.subrange(0, tag.len() as int)[0] == h[0]);
            } else {
                assert(h.subrange(j, j + tag.len()) =~= a.subrange(j - 1, j - 1 + tag.len()));
                assert(occurs_at(a, tag, j - 1));
            }
        }
    }
}

/// Parsing a description that `build_description` assembled gives back its
/// parts, trimmed, provided the text before the block holds no `[AI]` and the
/// AI content holds no `[/AI]`.
pub proof fn lemma_parse_build_roundtrip(pre: Seq<char>, ai: Seq<char>, post: Seq<char>)
    requires
        find(pre, ai_open()) is None,
        find(ai, ai_close()) is None,
    ensures
        parsed_parts(assembled(pre, ai, post)) == (trim(pre), trim(ai), trim(post)),
{
    let nl = newline();
    let head = if pre.len() == 0 { Seq::<char>::empty() } else { pre + nl };
    let tail = if post.len() == 0 { Seq::<char>::empty() } else { nl + post };
    let rest = nl + ai + nl + ai_close() + tail;
    let d = assembled(pre, ai, post);
    assert(d =~= head + ai_open() + rest);
    // Where the block opens.
    if pre.len() == 0 {
        lemma_tag_at_start(ai_open(), rest);
        assert(head + ai_open() + rest =~= ai_open() + rest);
        assert(pre =~= Seq::<char>::empty());
    } else {
        lemma_tag_after_line(pre, ai_open(), rest);
        assert(pre + nl + ai_open() + rest =~= head + ai_open() + rest);
        lemma_trim_newline(pre);
    }
    let s: int = head.len() as int;
    assert(find(d, ai_open()) == Some(s as nat));
    assert(d.subrange(0, s as int) =~= head);
    assert(trim(head) == trim(pre)) by {
        if pre.len() == 0 {
            assert(head =~= pre);
        }
    }
    // Where it closes.
    let after = d.subrange(s + 4, d.len() as int);
    assert(after =~= rest);
    lemma_absent_after_newline(ai, ai_close());
    lemma_tag_after_line(nl + ai, ai_close(), tail);
    assert(nl + ai + nl + ai_close() + tail =~= rest);
    let e: int = ai.len() + 2int;
    assert(find(after, ai_close()) == Some(e as nat));
    assert(after.subrange(0, e) =~= (nl + ai) + nl);
    lemma_trim_newline(nl + ai);
    lemma_trim_newline(ai);
    assert(after.subrange(e + 5, after.len() as int) =~= tail);
    if post.len() == 0 {
        assert(post =~= Seq::<char>::empty());
        assert(trim(Seq::<char>::empty()) == Seq::<char>::empty());
    } else {
        lemma_trim_newline(post);
    }
}

/// Re-generating the AI block keeps the user-written text: building a
/// description from the user parts of an existing one and new AI content
/// (holding no `[/AI]`), then parsing it, gives the same user parts back.
pub proof fn lemma_user_text_survives_regeneration(d: Seq<char>, ai: Seq<char>)
    requires
        find(ai, ai_close()) is None,
    ensures
        parsed_parts(assembled(parsed_parts(d).0, ai, parsed_parts(d).2)) == (
            parsed_parts(d).0,
            trim(ai),
            parsed_parts(d).2,
        ),
{
    let p = parsed_parts(d);
    lemma_parsed_parts_are_trimmed(d);
    lemma_parse_build_roundtrip(p.0, ai, p.2);
}

/// The parts that `parse_description` gives are trimmed, and the text before
/// the block holds no `[AI]`.
pub proof fn lemma_parsed_parts_are_trimmed(d: Seq<char>)
    ensures
        trim(parsed_parts(d).0) == parsed_parts(d).0,
        trim(parsed_parts(d).1) == parsed_parts(d).1,
        trim(parsed_parts(d).2) == parsed_parts(d).2,
        find(parsed_parts(d).0, ai_open()) is None,
{
    assert(trim(Seq::<char>::empty()) == Seq::<char>::empty());
    match find(d, ai_open()) {
        Some(s) => {
            lemma_find_from_is_first(d, ai_open(), 0);
            let before = d.subrange(0, s as int);
            lemma_find_none_iff(before, ai_open());
            assert forall|j: int| !occurs_at(before, ai_open(), j) by {
                if occurs_at(before, ai_open(), j) {
                    assert(before.subrange(j, j + 4) =~= d.subrange(j, j + 4));
                    assert(occurs_at(d, ai_open(), j));
                }
            }
            lemma_trim_keeps_absence(before, ai_open());
            lemma_trim_idempotent(before);
            let after = d.subrange(s + 4int, d.len() as int);
            match find(after, ai_close()) {
                Some(e) => {
                    lemma_trim_idempotent(after.subrange(0, e as int));
                    lemma_trim_idempotent(after.subrange(e + 5int, after.len() as int));
                },
                None => {
                    lemma_trim_idempotent(after);
                },
            }
        },
        None => {
            lemma_trim_keeps_absence(d, ai_open());
            lemma_trim_idempotent(d);
        },
    }
}

/// A description without an `[AI]` tag is kept whole as the user's text:
/// the text before the block is the description itself with only leading and
/// trailing whitespace removed, so no line and no other character is lost,
/// and there is no AI content and no text after the block.
pub proof fn lemma_text_without_block_is_kept(d: Seq<char>)
    requires
        find(d, ai_open()) is None,
    ensures
        parsed_parts(d).1.len() == 0,
        parsed_parts(d).2.len() == 0,
        exists|a: int, b: int|
            {
                &&& 0 <= a <= b <= d.len()
                &&& parsed_parts(d).0 == d.subrange(a, b)
                &&& forall|j: int| 0 <= j < a ==> is_white_space(#[trigger] d[j])
                &&& forall|j: int| b <= j < d.len() ==> is_white_space(#[trigger] d[j])
                &&& a < b ==> !is_white_space(d[a]) && !is_white_space(d[b - 1])
            },
{
    lemma_trim_characterized(d);
}

/// The prompt's user text holds both parts whole: the text before the block
/// is its beginning, the text after it is its end, and at most one line
/// break (only when both are there) stands between them.
pub proof fn lemma_joined_keeps_both_parts(pre: Seq<char>, post: Seq<char>)
    ensures
        joined(pre, post).len() == pre.len() + post.len() + (if pre.len() > 0 && post.len() > 0 {
            1int
        } else {
            0int
        }),
        joined(pre, post).subrange(0, pre.len() as int) == pre,
        joined(pre, post).subrange(
            joined(pre, post).len() - post.len(),
            joined(pre, post).len() as int,
        ) == post,
{
    let j = joined(pre, post);
    if pre.len() == 0 && post.len() == 0 {
        assert(j.subrange(0, 0) =~= pre);
        assert(j.subrange(0, 0) =~= post);
    } else if post.len() == 0 {
        assert(j.subrange(0, pre.len() as int) =~= pre);
        assert(j.subrange(j.len() - post.len(), j.len() as int) =~= post);
    } else if pre.len() == 0 {
        assert(j.subrange(0, 0) =~= pre);
        assert(j.subrange(0, post.len() as int) =~= post);
    } else {
        assert(j.subrange(0, pre.len() as int) =~= pre);
        assert(j.subrange(j.len() - post.len(), j.len() as int) =~= post);
    }
}

} // verus!
