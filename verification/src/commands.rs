//! The text handed to the language model when the user asks about the
//! current selection.

use vstd::prelude::*;

verus! {

/// The question with the selection's context in front of it.
pub open spec fn ai_prompt(
    query: Seq<char>,
    path: Seq<char>,
    ctx_name: Seq<char>,
    folder_summary: Seq<char>,
) -> Seq<char> {
    "Thông tin ngữ cảnh:\n- File/Thư mục: "@ + ctx_name + "\n- Đường dẫn: "@ + path
        + "\n- Chi tiết: "@ + folder_summary + "\n\nCâu hỏi từ người dùng: "@ + query
}

/// The heading that opens the prompt, up to the selection's name.
pub open spec fn name_heading() -> Seq<char> {
    "Thông tin ngữ cảnh:\n- File/Thư mục: "@
}

/// The line start in front of the path.
pub open spec fn path_heading() -> Seq<char> {
    "\n- Đường dẫn: "@
}

/// The line start in front of the folder summary.
pub open spec fn details_heading() -> Seq<char> {
    "\n- Chi tiết: "@
}

/// The text in front of the user's question.
pub open spec fn question_heading() -> Seq<char> {
    "\n\nCâu hỏi từ người dùng: "@
}

/// Where the folder summary starts in a prompt for a selection named
/// `ctx_name` at `path`: right after the details heading.
pub open spec fn summary_offset(path: Seq<char>, ctx_name: Seq<char>) -> int {
    (name_heading().len() + ctx_name.len() + path_heading().len() + path.len()
        + details_heading().len()) as int
}

/// The prompt lays its parts out in order: the name heading, the name, the
/// path heading, the path, the details heading, the folder summary, the
/// question heading and the question, each at the place where the parts in
/// front of it end; its length is the length of all of them together.
pub proof fn lemma_prompt_layout(
    query: Seq<char>,
    path: Seq<char>,
    ctx_name: Seq<char>,
    folder_summary: Seq<char>,
)
    ensures
        ({
            let p = ai_prompt(query, path, ctx_name, folder_summary);
            let a = name_heading().len() as int;
            let b = a + ctx_name.len();
            let c = b + path_heading().len();
            let d = c + path.len();
            let e = d + details_heading().len();
            let f = e + folder_summary.len();
            let g = f + question_heading().len();
            &&& p.len() == g + query.len()
            &&& p.subrange(0, a) == name_heading()
            &&& p.subrange(a, b) == ctx_name
            &&& p.subrange(b, c) == path_heading()
            &&& p.subrange(c, d) == path
            &&& p.subrange(d, e) == details_heading()
            &&& e == summary_offset(path, ctx_name)
            &&& p.subrange(e, f) == folder_summary
            &&& p.subrange(f, g) == question_heading()
            &&& p.subrange(g, p.len() as int) == query
        }),
{
    let p = ai_prompt(query, path, ctx_name, folder_summary);
    let a = name_heading().len() as int;
    let b = a + ctx_name.len();
    let c = b + path_heading().len();
    let d = c + path.len();
    let e = d + details_heading().len();
    let f = e + folder_summary.len();
    let g = f + question_heading().len();
    assert(p.subrange(0, a) =~= name_heading());
    assert(p.subrange(a, b) =~= ctx_name);
    assert(p.subrange(b, c) =~= path_heading());
    assert(p.subrange(c, d) =~= path);
    assert(p.subrange(d, e) =~= details_heading());
    assert(p.subrange(e, f) =~= folder_summary);
    assert(p.subrange(f, g) =~= question_heading());
    assert(p.subrange(g, p.len() as int) =~= query);
}

/// The prompt for a question about the selection named `ctx_name` at
/// `path`, whose folder summary is `folder_summary`.
pub fn ask_ai_prompt(query: &str, path: &str, ctx_name: &str, folder_summary: &str) -> (prompt:
    String)
    ensures
        prompt@ == ai_prompt(query@, path@, ctx_name@, folder_summary@),
        prompt@.len() == name_heading().len() + ctx_name@.len() + path_heading().len()
            + path@.len() + details_heading().len() + folder_summary@.len()
            + question_heading().len() + query@.len(),
        prompt@.subrange(
            summary_offset(path@, ctx_name@) - details_heading().len(),
            summary_offset(path@, ctx_name@),
        ) == details_heading(),
        prompt@.subrange(
            summary_offset(path@, ctx_name@),
            summary_offset(path@, ctx_name@) + folder_summary@.len(),
        ) == folder_summary@,
        prompt@.subrange(0, name_heading().len() as int) == name_heading(),
        prompt@.subrange(prompt@.len() - query@.len(), prompt@.len() as int) == query@,
{
    let mut prompt = String::from_str("Thông tin ngữ cảnh:\n- File/Thư mục: ");
    prompt.append(ctx_name);
    prompt.append("\n- Đường dẫn: ");
    prompt.append(path);
    prompt.append("\n- Chi tiết: ");
    prompt.append(folder_summary);
    prompt.append("\n\nCâu hỏi từ người dùng: ");
    prompt.append(query);
    proof {
        lemma_prompt_layout(query@, path@, ctx_name@, folder_summary@);
    }
    prompt
}

} // verus!
