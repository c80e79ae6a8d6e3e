use vstd::prelude::*;
use vstd::string::*;

verus! {

/// Instructions shared by every structured summary: six fixed sections, in this order.
pub const BASE_PROMPT: &'static str = "당신은 전문 요약가입니다. 다음 텍스트를 간결하고 구조화된 한국어 요약으로 작성합니다.

지침:
- 불렛 포인트를 사용합니다.
- 사실에만 근거합니다. 해석/추정/의견 금지.
- 섹션 제목은 다음 순서를 고정합니다:
  1) 주요 주제
  2) 핵심 내용
  3) 결정 사항
  4) 실행 항목
  5) 리스크/이슈
  6) 차기 일정

출력은 반드시 위 6개 섹션만 포함합니다.";

pub const CHUNK_INTRO: &'static str = "\n\n아래 청크를 요약하세요:\n---\n";

pub const REDUCE_INTRO: &'static str = "\n\n아래는 여러 청크 요약의 모음입니다. 중복을 제거하고 상충 내용을 조정하여 하나의 최종 요약으로 통합하세요:\n---\n";

pub const BLOCK_END: &'static str = "\n---";

pub const ONE_LINE_INTRO: &'static str = "다음 요약을 한 문장으로 압축해주세요. 가장 핵심적인 내용만 포함하세요.\n\n요약:\n";

pub const ONE_LINE_END: &'static str = "\n\n한 줄 요약:";

/// Separator between chunk summaries handed to one reduce call.
pub const CHUNK_SEPARATOR: &'static str = "\n\n---청크 요약 구분선---\n\n";

/// Separator between batch summaries handed to the final reduce call.
pub const BATCH_SEPARATOR: &'static str = "\n\n---배치 요약 구분선---\n\n";

pub open spec fn chunk_prompt_text(chunk: Seq<char>) -> Seq<char> {
    BASE_PROMPT@ + CHUNK_INTRO@ + chunk + BLOCK_END@
}

pub open spec fn reduce_prompt_text(summaries: Seq<char>) -> Seq<char> {
    BASE_PROMPT@ + REDUCE_INTRO@ + summaries + BLOCK_END@
}

pub open spec fn one_line_prompt_text(summary: Seq<char>) -> Seq<char> {
    ONE_LINE_INTRO@ + summary + ONE_LINE_END@
}

/// `parts` joined with `sep` between neighbours.
pub open spec fn joined(parts: Seq<Seq<char>>, sep: Seq<char>) -> Seq<char>
    decreases parts.len(),
{
    if parts.len() == 0 {
        seq![]
    } else if parts.len() == 1 {
        parts[0]
    } else {
        joined(parts.drop_last(), sep) + sep + parts.last()
    }
}

/// The structured-summary prompt for one piece of text.
pub fn chunk_prompt(chunk: &str) -> (r: String)
    ensures
        r@ == chunk_prompt_text(chunk@),
{
    let mut r = BASE_PROMPT.to_owned();
    r.append(CHUNK_INTRO);
    r.append(chunk);
    r.append(BLOCK_END);
    r
}

/// The prompt that merges several summaries into one structured summary.
pub fn reduce_prompt(summaries: &str) -> (r: String)
    ensures
        r@ == reduce_prompt_text(summaries@),
{
    let mut r = BASE_PROMPT.to_owned();
    r.append(REDUCE_INTRO);
    r.append(summaries);
    r.append(BLOCK_END);
    r
}

/// The prompt that condenses a summary into one sentence.
pub fn one_line_prompt(summary: &str) -> (r: String)
    ensures
        r@ == one_line_prompt_text(summary@),
{
    let mut r = ONE_LINE_INTRO.to_owned();
    r.append(summary);
    r.append(ONE_LINE_END);
    r
}

/// `parts[lo..hi]` joined with `sep`.
pub fn join_range(parts: &Vec<String>, lo: usize, hi: usize, sep: &str) -> (r: String)
    requires
        lo <= hi <= parts@.len(),
    ensures
        r@ == joined(parts@.subrange(lo as int, hi as int).map_values(|p: String| p@), sep@),
{
    let mut r = String::new();
    let mut i = lo;
    while i < hi
        invariant
            lo <= i <= hi <= parts@.len(),
            r@ == joined(parts@.subrange(lo as int, i as int).map_values(|p: String| p@), sep@),
        decreases hi - i,
    {
        let ghost before = parts@.subrange(lo as int, i as int).map_values(|p: String| p@);
        let ghost after = parts@.subrange(lo as int, i + 1).map_values(|p: String| p@);
        assert(after.drop_last() =~= before);
        if i > lo {
            r.append(sep);
        }
        r.append(parts[i].as_str());
        i = i + 1;
    }
    r
}

} // verus!
