//! Text-guided mining of candidate segments from transcript, OCR and reference text.

use vstd::prelude::*;
use crate::text::{
    chars_of, contains, contains_str, padded_decimal, push_padded_decimal, take_chars,
    take_string, trim, trim_chars,
};
use crate::deep_video::types::{
    candidates_view, CandidateCategory, CandidateSegment, CandidateSource, CandidateView,
    OcrInputItem, TranscriptInput, TranscriptSegment,
};

verus! {

/// Some word of `words` occurs in `t`.
pub open spec fn contains_any_spec(t: Seq<char>, words: Seq<Seq<char>>) -> bool {
    exists|j: int| 0 <= j < words.len() && contains(t, #[trigger] words[j])
}

/// Words that mark a hook.
pub open spec fn hook_words() -> Seq<Seq<char>> {
    seq!["你是不是"@, "有没有"@, "别再"@, "为什么"@, "如果你"@]
}

/// Words that mark a pain point.
pub open spec fn pain_point_words() -> Seq<Seq<char>> {
    seq!["痛点"@, "问题"@, "困扰"@, "踩坑"@, "失败"@]
}

/// Words that mark a benefit.
pub open spec fn benefit_words() -> Seq<Seq<char>> {
    seq!["好处"@, "收益"@, "提升"@, "解决"@, "省钱"@, "省时"@]
}

/// Words that mark a turning point.
pub open spec fn turning_point_words() -> Seq<Seq<char>> {
    seq!["但是"@, "其实"@, "反而"@, "关键是"@, "重点来了"@]
}

/// Words that mark proof.
pub open spec fn proof_words() -> Seq<Seq<char>> {
    seq!["案例"@, "证明"@, "实测"@, "数据"@, "对比"@]
}

/// Words that mark an offer.
pub open spec fn offer_words() -> Seq<Seq<char>> {
    seq!["福利"@, "优惠"@, "立减"@, "限时"@, "价格"@, "元"@]
}

/// Words that mark a warning.
pub open spec fn warning_words() -> Seq<Seq<char>> {
    seq!["注意"@, "风险"@, "不要"@, "警告"@, "避开"@]
}

/// Words that mark a call to action.
pub open spec fn cta_words() -> Seq<Seq<char>> {
    seq!["关注"@, "评论"@, "私信"@, "下单"@, "领取"@]
}

/// The category of a text: none for blank text, a hook for the opening text,
/// otherwise the first keyword group (in a fixed order) with a word in the
/// trimmed text. The keywords are CJK ideographs, which case mapping leaves
/// unchanged, so no case folding is involved.
pub open spec fn classify(text: Seq<char>, is_opening: bool) -> Option<CandidateCategory> {
    let t = trim(text);
    if t.len() == 0 {
        None
    } else if is_opening || contains_any_spec(t, hook_words()) {
        Some(CandidateCategory::Hook)
    } else if contains_any_spec(t, pain_point_words()) {
        Some(CandidateCategory::PainPoint)
    } else if contains_any_spec(t, benefit_words()) {
        Some(CandidateCategory::Benefit)
    } else if contains_any_spec(t, turning_point_words()) {
        Some(CandidateCategory::TurningPoint)
    } else if contains_any_spec(t, proof_words()) {
        Some(CandidateCategory::Proof)
    } else if contains_any_spec(t, offer_words()) {
        Some(CandidateCategory::Offer)
    } else if contains_any_spec(t, warning_words()) {
        Some(CandidateCategory::Warning)
    } else if contains_any_spec(t, cta_words()) {
        Some(CandidateCategory::Cta)
    } else {
        None
    }
}

/// A word of `words` found in `t` makes `contains_any_spec` hold.
proof fn lemma_group_hit(t: Seq<char>, words: Seq<Seq<char>>, w: Seq<char>)
    requires
        words.contains(w),
        contains(t, w),
    ensures
        contains_any_spec(t, words),
{
    let j = choose|j: int| 0 <= j < words.len() && words[j] == w;
    assert(contains(t, words[j]));
}

/// When no word of `words` is in `t`, `contains_any_spec` fails.
proof fn lemma_group_miss(t: Seq<char>, words: Seq<Seq<char>>)
    requires
        forall|w: Seq<char>| words.contains(w) ==> !contains(t, w),
    ensures
        !contains_any_spec(t, words),
{
    assert forall|j: int| 0 <= j < words.len() implies !contains(t, #[trigger] words[j]) by {
        assert(words.contains(words[j]));
    }
}

/// A text that is not blank once trimmed is classified as a hook when it is
/// the opening text or its trimmed form holds one of the hook words
/// 你是不是, 有没有, 别再, 为什么 or 如果你.
pub proof fn law_hook_words_classify(text: Seq<char>, is_opening: bool)
    requires
        trim(text).len() > 0,
        is_opening || exists|w: Seq<char>| seq!["你是不是"@, "有没有"@, "别再"@, "为什么"@, "如果你"@].contains(w) && contains(trim(text), w),
    ensures
        classify(text, is_opening) == Some(CandidateCategory::Hook),
{
    if !is_opening {
        let w = choose|w: Seq<char>| seq!["你是不是"@, "有没有"@, "别再"@, "为什么"@, "如果你"@].contains(w) && contains(trim(text), w);
        lemma_group_hit(trim(text), hook_words(), w);
    }
}

/// A text that is not blank once trimmed, is not the opening, and whose
/// trimmed form holds one of the words 痛点, 问题, 困扰, 踩坑, 失败, but none of the words of the
/// groups checked before it (你是不是/有没有/别再/为什么/如果你), is classified as a pain point.
pub proof fn law_pain_point_words_classify(text: Seq<char>, word: Seq<char>)
    requires
        trim(text).len() > 0,
        seq!["痛点"@, "问题"@, "困扰"@, "踩坑"@, "失败"@].contains(word),
        contains(trim(text), word),
        forall|w: Seq<char>| seq!["你是不是"@, "有没有"@, "别再"@, "为什么"@, "如果你"@].contains(w) ==> !contains(trim(text), w),
    ensures
        classify(text, false) == Some(CandidateCategory::PainPoint),
{
    lemma_group_miss(trim(text), hook_words());
    lemma_group_hit(trim(text), pain_point_words(), word);
}

/// A text that is not blank once trimmed, is not the opening, and whose
/// trimmed form holds one of the words 好处, 收益, 提升, 解决, 省钱, 省时, but none of the words of the
/// groups checked before it (你是不是/有没有/别再/为什么/如果你, 痛点/问题/困扰/踩坑/失败), is classified as a benefit.
pub proof fn law_benefit_words_classify(text: Seq<char>, word: Seq<char>)
    requires
        trim(text).len() > 0,
        seq!["好处"@, "收益"@, "提升"@, "解决"@, "省钱"@, "省时"@].contains(word),
        contains(trim(text), word),
        forall|w: Seq<char>| seq!["你是不是"@, "有没有"@, "别再"@, "为什么"@, "如果你"@].contains(w) ==> !contains(trim(text), w),
        forall|w: Seq<char>| seq!["痛点"@, "问题"@, "困扰"@, "踩坑"@, "失败"@].contains(w) ==> !contains(trim(text), w),
    ensures
        classify(text, false) == Some(CandidateCategory::Benefit),
{
    lemma_group_miss(trim(text), hook_words());
    lemma_group_miss(trim(text), pain_point_words());
    lemma_group_hit(trim(text), benefit_words(), word);
}

/// A text that is not blank once trimmed, is not the opening, and whose
/// trimmed form holds one of the words 但是, 其实, 反而, 关键是, 重点来了, but none of the words of the
/// groups checked before it (你是不是/有没有/别再/为什么/如果你, 痛点/问题/困扰/踩坑/失败, 好处/收益/提升/解决/省钱/省时), is classified as a turning point.
pub proof fn law_turning_point_words_classify(text: Seq<char>, word: Seq<char>)
    requires
        trim(text).len() > 0,
        seq!["但是"@, "其实"@, "反而"@, "关键是"@, "重点来了"@].contains(word),
        contains(trim(text), word),
        forall|w: Seq<char>| seq!["你是不是"@, "有没有"@, "别再"@, "为什么"@, "如果你"@].contains(w) ==> !contains(trim(text), w),
        forall|w: Seq<char>| seq!["痛点"@, "问题"@, "困扰"@, "踩坑"@, "失败"@].contains(w) ==> !contains(trim(text), w),
        forall|w: Seq<char>| seq!["好处"@, "收益"@, "提升"@, "解决"@, "省钱"@, "省时"@].contains(w) ==> !contains(trim(text), w),
    ensures
        classify(text, false) == Some(CandidateCategory::TurningPoint),
{
    lemma_group_miss(trim(text), hook_words());
    lemma_group_miss(trim(text), pain_point_words());
    lemma_group_miss(trim(text), benefit_words());
    lemma_group_hit(trim(text), turning_point_words(), word);
}

/// A text that is not blank once trimmed, is not the opening, and whose
/// trimmed form holds one of the words 案例, 证明, 实测, 数据, 对比, but none of the words of the
/// groups checked before it (你是不是/有没有/别再/为什么/如果你, 痛点/问题/困扰/踩坑/失败, 好处/收益/提升/解决/省钱/省时, 但是/其实/反而/关键是/重点来了), is classified as proof.
pub proof fn law_proof_words_classify(text: Seq<char>, word: Seq<char>)
    requires
        trim(text).len() > 0,
        seq!["案例"@, "证明"@, "实测"@, "数据"@, "对比"@].contains(word),
        contains(trim(text), word),
        forall|w: Seq<char>| seq!["你是不是"@, "有没有"@, "别再"@, "为什么"@, "如果你"@].contains(w) ==> !contains(trim(text), w),
        forall|w: Seq<char>| seq!["痛点"@, "问题"@, "困扰"@, "踩坑"@, "失败"@].contains(w) ==> !contains(trim(text), w),
        forall|w: Seq<char>| seq!["好处"@, "收益"@, "提升"@, "解决"@, "省钱"@, "省时"@].contains(w) ==> !contains(trim(text), w),
        forall|w: Seq<char>| seq!["但是"@, "其实"@, "反而"@, "关键是"@, "重点来了"@].contains(w) ==> !contains(trim(text), w),
    ensures
        classify(text, false) == Some(CandidateCategory::Proof),
{
    lemma_group_miss(trim(text), hook_words());
    lemma_group_miss(trim(text), pain_point_words());
    lemma_group_miss(trim(text), benefit_words());
    lemma_group_miss(trim(text), turning_point_words());
    lemma_group_hit(trim(text), proof_words(), word);
}

/// A text that is not blank once trimmed, is not the opening, and whose
/// trimmed form holds one of the words 福利, 优惠, 立减, 限时, 价格, 元, but none of the words of the
/// groups checked before it (你是不是/有没有/别再/为什么/如果你, 痛点/问题/困扰/踩坑/失败, 好处/收益/提升/解决/省钱/省时, 但是/其实/反而/关键是/重点来了, 案例/证明/实测/数据/对比), is classified as an offer.
pub proof fn law_offer_words_classify(text: Seq<char>, word: Seq<char>)
    requires
        trim(text).len() > 0,
        seq!["福利"@, "优惠"@, "立减"@, "限时"@, "价格"@, "元"@].contains(word),
        contains(trim(text), word),
        forall|w: Seq<char>| seq!["你是不是"@, "有没有"@, "别再"@, "为什么"@, "如果你"@].contains(w) ==> !contains(trim(text), w),
        forall|w: Seq<char>| seq!["痛点"@, "问题"@, "困扰"@, "踩坑"@, "失败"@].contains(w) ==> !contains(trim(text), w),
        forall|w: Seq<char>| seq!["好处"@, "收益"@, "提升"@, "解决"@, "省钱"@, "省时"@].contains(w) ==> !contains(trim(text), w),
        forall|w: Seq<char>| seq!["但是"@, "其实"@, "反而"@, "关键是"@, "重点来了"@].contains(w) ==> !contains(trim(text), w),
        forall|w: Seq<char>| seq!["案例"@, "证明"@, "实测"@, "数据"@, "对比"@].contains(w) ==> !contains(trim(text), w),
    ensures
        classify(text, false) == Some(CandidateCategory::Offer),
{
    lemma_group_miss(trim(text), hook_words());
    lemma_group_miss(trim(text), pain_point_words());
    lemma_group_miss(trim(text), benefit_words());
    lemma_group_miss(trim(text), turning_point_words());
    lemma_group_miss(trim(text), proof_words());
    lemma_group_hit(trim(text), offer_words(), word);
}

/// A text that is not blank once trimmed, is not the opening, and whose
/// trimmed form holds one of the words 注意, 风险, 不要, 警告, 避开, but none of the words of the
/// groups checked before it (你是不是/有没有/别再/为什么/如果你, 痛点/问题/困扰/踩坑/失败, 好处/收益/提升/解决/省钱/省时, 但是/其实/反而/关键是/重点来了, 案例/证明/实测/数据/对比, 福利/优惠/立减/限时/价格/元), is classified as a warning.
pub proof fn law_warning_words_classify(text: Seq<char>, word: Seq<char>)
    requires
        trim(text).len() > 0,
        seq!["注意"@, "风险"@, "不要"@, "警告"@, "避开"@].contains(word),
        contains(trim(text), word),
        forall|w: Seq<char>| seq!["你是不是"@, "有没有"@, "别再"@, "为什么"@, "如果你"@].contains(w) ==> !contains(trim(text), w),
        forall|w: Seq<char>| seq!["痛点"@, "问题"@, "困扰"@, "踩坑"@, "失败"@].contains(w) ==> !contains(trim(text), w),
        forall|w: Seq<char>| seq!["好处"@, "收益"@, "提升"@, "解决"@, "省钱"@, "省时"@].contains(w) ==> !contains(trim(text), w),
        forall|w: Seq<char>| seq!["但是"@, "其实"@, "反而"@, "关键是"@, "重点来了"@].contains(w) ==> !contains(trim(text), w),
        forall|w: Seq<char>| seq!["案例"@, "证明"@, "实测"@, "数据"@, "对比"@].contains(w) ==> !contains(trim(text), w),
        forall|w: Seq<char>| seq!["福利"@, "优惠"@, "立减"@, "限时"@, "价格"@, "元"@].contains(w) ==> !contains(trim(text), w),
    ensures
        classify(text, false) == Some(CandidateCategory::Warning),
{
    lemma_group_miss(trim(text), hook_words());
    lemma_group_miss(trim(text), pain_point_words());
    lemma_group_miss(trim(text), benefit_words());
    lemma_group_miss(trim(text), turning_point_words());
    lemma_group_miss(trim(text), proof_words());
    lemma_group_miss(trim(text), offer_words());
    lemma_group_hit(trim(text), warning_words(), word);
}

/// A text that is not blank once trimmed, is not the opening, and whose
/// trimmed form holds one of the words 关注, 评论, 私信, 下单, 领取, but none of the words of the
/// groups checked before it (你是不是/有没有/别再/为什么/如果你, 痛点/问题/困扰/踩坑/失败, 好处/收益/提升/解决/省钱/省时, 但是/其实/反而/关键是/重点来了, 案例/证明/实测/数据/对比, 福利/优惠/立减/限时/价格/元, 注意/风险/不要/警告/避开), is classified as a call to action.
pub proof fn law_cta_words_classify(text: Seq<char>, word: Seq<char>)
    requires
        trim(text).len() > 0,
        seq!["关注"@, "评论"@, "私信"@, "下单"@, "领取"@].contains(word),
        contains(trim(text), word),
        forall|w: Seq<char>| seq!["你是不是"@, "有没有"@, "别再"@, "为什么"@, "如果你"@].contains(w) ==> !contains(trim(text), w),
        forall|w: Seq<char>| seq!["痛点"@, "问题"@, "困扰"@, "踩坑"@, "失败"@].contains(w) ==> !contains(trim(text), w),
        forall|w: Seq<char>| seq!["好处"@, "收益"@, "提升"@, "解决"@, "省钱"@, "省时"@].contains(w) ==> !contains(trim(text), w),
        forall|w: Seq<char>| seq!["但是"@, "其实"@, "反而"@, "关键是"@, "重点来了"@].contains(w) ==> !contains(trim(text), w),
        forall|w: Seq<char>| seq!["案例"@, "证明"@, "实测"@, "数据"@, "对比"@].contains(w) ==> !contains(trim(text), w),
        forall|w: Seq<char>| seq!["福利"@, "优惠"@, "立减"@, "限时"@, "价格"@, "元"@].contains(w) ==> !contains(trim(text), w),
        forall|w: Seq<char>| seq!["注意"@, "风险"@, "不要"@, "警告"@, "避开"@].contains(w) ==> !contains(trim(text), w),
    ensures
        classify(text, false) == Some(CandidateCategory::Cta),
{
    lemma_group_miss(trim(text), hook_words());
    lemma_group_miss(trim(text), pain_point_words());
    lemma_group_miss(trim(text), benefit_words());
    lemma_group_miss(trim(text), turning_point_words());
    lemma_group_miss(trim(text), proof_words());
    lemma_group_miss(trim(text), offer_words());
    lemma_group_miss(trim(text), warning_words());
    lemma_group_hit(trim(text), cta_words(), word);
}

/// Whether some word of `words` occurs in `text`.
fn contains_any(text: &Vec<char>, words: &[&str]) -> (b: bool)
    ensures
        b == contains_any_spec(text@, words@.map_values(|w: &str| w@)),
{
    let ghost ws = words@.map_values(|w: &str| w@);
    let mut j: usize = 0;
    while j < words.len()
        invariant
            j <= words.len(),
            ws == words@.map_values(|w: &str| w@),
            forall|k: int| 0 <= k < j ==> !contains(text@, #[trigger] ws[k]),
        decreases words.len() - j,
    {
        if contains_str(text, words[j]) {
            assert(contains(text@, ws[j as int]));
            return true;
        }
        j = j + 1;
    }
    false
}

/// The category of a text (see `classify`).
fn classify_text(text: &str, is_opening: bool) -> (r: Option<CandidateCategory>)
    ensures
        r == classify(text@, is_opening),
{
    let chars = chars_of(text);
    let t = trim_chars(&chars);
    if t.len() == 0 {
        return None;
    }
    let hook: [&str; 5] = ["你是不是", "有没有", "别再", "为什么", "如果你"];
    assert(hook@.map_values(|w: &str| w@) =~= hook_words());
    if is_opening || contains_any(&t, &hook) {
        return Some(CandidateCategory::Hook);
    }
    let pain: [&str; 5] = ["痛点", "问题", "困扰", "踩坑", "失败"];
    assert(pain@.map_values(|w: &str| w@) =~= pain_point_words());
    if contains_any(&t, &pain) {
        return Some(CandidateCategory::PainPoint);
    }
    let benefit: [&str; 6] = ["好处", "收益", "提升", "解决", "省钱", "省时"];
    assert(benefit@.map_values(|w: &str| w@) =~= benefit_words());
    if contains_any(&t, &benefit) {
        return Some(CandidateCategory::Benefit);
    }
    let turning: [&str; 5] = ["但是", "其实", "反而", "关键是", "重点来了"];
    assert(turning@.map_values(|w: &str| w@) =~= turning_point_words());
    if contains_any(&t, &turning) {
        return Some(CandidateCategory::TurningPoint);
    }
    let proof_w: [&str; 5] = ["案例", "证明", "实测", "数据", "对比"];
    assert(proof_w@.map_values(|w: &str| w@) =~= proof_words());
    if contains_any(&t, &proof_w) {
        return Some(CandidateCategory::Proof);
    }
    let offer: [&str; 6] = ["福利", "优惠", "立减", "限时", "价格", "元"];
    assert(offer@.map_values(|w: &str| w@) =~= offer_words());
    if contains_any(&t, &offer) {
        return Some(CandidateCategory::Offer);
    }
    let warning: [&str; 5] = ["注意", "风险", "不要", "警告", "避开"];
    assert(warning@.map_values(|w: &str| w@) =~= warning_words());
    if contains_any(&t, &warning) {
        return Some(CandidateCategory::Warning);
    }
    let cta: [&str; 5] = ["关注", "评论", "私信", "下单", "领取"];
    assert(cta@.map_values(|w: &str| w@) =~= cta_words());
    if contains_any(&t, &cta) {
        return Some(CandidateCategory::Cta);
    }
    None
}

/// Why a transcript segment became a candidate.
pub open spec fn asr_reason() -> Seq<char> {
    "ASR segment matched short-video structure keywords"@
}

/// Why a whole transcript became a candidate.
pub open spec fn transcript_reason() -> Seq<char> {
    "Transcript has no segments; full transcript kept as opening candidate"@
}

/// Why an OCR text became a candidate.
pub open spec fn ocr_reason() -> Seq<char> {
    "OCR text matched visual evidence keywords"@
}

/// Why the reference text became a candidate.
pub open spec fn reference_reason() -> Seq<char> {
    "Reference text matched analysis keywords"@
}

/// The identifier of the `number`-th candidate: `candidate-` and at least three digits.
pub open spec fn segment_id_for(number: nat) -> Seq<char> {
    "candidate-"@ + padded_decimal(number, 3)
}

/// The `number`-th candidate; its excerpt is the first 180 characters of `text`.
pub open spec fn candidate_at(
    number: nat,
    category: CandidateCategory,
    start_ms: Option<i64>,
    end_ms: Option<i64>,
    reason: Seq<char>,
    text: Seq<char>,
    source: CandidateSource,
) -> CandidateView {
    CandidateView {
        segment_id: segment_id_for(number),
        category,
        start_ms,
        end_ms,
        reason,
        text_excerpt: take_chars(text, 180),
        source,
    }
}

/// `acc` extended by a candidate when the text was classified.
pub open spec fn push_classified(
    acc: Seq<CandidateView>,
    category: Option<CandidateCategory>,
    start_ms: Option<i64>,
    end_ms: Option<i64>,
    reason: Seq<char>,
    text: Seq<char>,
    source: CandidateSource,
) -> Seq<CandidateView> {
    match category {
        Some(c) => acc.push(
            candidate_at((acc.len() + 1) as nat, c, start_ms, end_ms, reason, text, source),
        ),
        None => acc,
    }
}

/// `acc` extended by the candidates of the transcript segments `segs`, in order;
/// a segment opens the material when no candidate precedes it.
pub open spec fn mine_segments(acc: Seq<CandidateView>, segs: Seq<TranscriptSegment>) -> Seq<
    CandidateView,
>
    decreases segs.len(),
{
    if segs.len() == 0 {
        acc
    } else {
        let s = segs[0];
        mine_segments(
            push_classified(
                acc,
                classify(s.text@, acc.len() == 0),
                s.start_ms,
                s.end_ms,
                asr_reason(),
                s.text@,
                CandidateSource::Asr,
            ),
            segs.drop_first(),
        )
    }
}

/// The candidates of a transcript: those of its segments, or, when there are
/// none and the full text is not blank, the full text as an opening hook.
pub open spec fn mine_transcript(t: TranscriptInput) -> Seq<CandidateView> {
    let a = mine_segments(seq![], t.segments@);
    if a.len() == 0 && trim(t.text@).len() > 0 {
        push_classified(
            a,
            Some(CandidateCategory::Hook),
            None,
            None,
            transcript_reason(),
            t.text@,
            CandidateSource::Asr,
        )
    } else {
        a
    }
}

/// `acc` extended by the candidates of the OCR items `items`, in order.
pub open spec fn mine_ocr(acc: Seq<CandidateView>, items: Seq<OcrInputItem>) -> Seq<CandidateView>
    decreases items.len(),
{
    if items.len() == 0 {
        acc
    } else {
        let it = items[0];
        mine_ocr(
            push_classified(
                acc,
                classify(it.text@, false),
                it.timestamp_ms,
                it.timestamp_ms,
                ocr_reason(),
                it.text@,
                CandidateSource::Ocr,
            ),
            items.drop_first(),
        )
    }
}

/// All candidates, numbered in order: transcript first, then OCR, then the reference text.
pub open spec fn mine_spec(
    transcript: Option<TranscriptInput>,
    ocr_items: Seq<OcrInputItem>,
    reference_text: Option<Seq<char>>,
) -> Seq<CandidateView> {
    let a = match transcript {
        Some(t) => mine_transcript(t),
        None => seq![],
    };
    let b = mine_ocr(a, ocr_items);
    match reference_text {
        Some(r) => push_classified(
            b,
            classify(r, false),
            None,
            None,
            reference_reason(),
            r,
            CandidateSource::ReferenceText,
        ),
        None => b,
    }
}

/// The number of inputs fits the numbering of candidates.
pub open spec fn mining_fits(transcript: Option<&TranscriptInput>, ocr_items: Seq<OcrInputItem>) -> bool {
    let n = match transcript {
        Some(t) => t.segments.len() as int,
        None => 0,
    };
    n + ocr_items.len() + 2 <= usize::MAX
}

/// Candidate `i` carries the identifier of number `i + 1`.
pub open spec fn numbered(s: Seq<CandidateView>) -> bool {
    forall|i: int| 0 <= i < s.len() ==> (#[trigger] s[i]).segment_id == segment_id_for((i + 1) as nat)
}

proof fn lemma_push_keeps(
    acc: Seq<CandidateView>,
    category: Option<CandidateCategory>,
    start_ms: Option<i64>,
    end_ms: Option<i64>,
    reason: Seq<char>,
    text: Seq<char>,
    source: CandidateSource,
)
    ensures
        ({
            let r = push_classified(acc, category, start_ms, end_ms, reason, text, source);
            &&& r.len() >= acc.len()
            &&& r.take(acc.len() as int) == acc
            &&& numbered(acc) ==> numbered(r)
        }),
{
    let r = push_classified(acc, category, start_ms, end_ms, reason, text, source);
    assert(r.take(acc.len() as int) =~= acc);
}

proof fn lemma_segments_keep(acc: Seq<CandidateView>, segs: Seq<TranscriptSegment>)
    ensures
        ({
            let r = mine_segments(acc, segs);
            &&& r.len() >= acc.len()
            &&& r.take(acc.len() as int) == acc
            &&& numbered(acc) ==> numbered(r)
        }),
    decreases segs.len(),
{
    if segs.len() > 0 {
        let sg = segs[0];
        let next = push_classified(
            acc,
            classify(sg.text@, acc.len() == 0),
            sg.start_ms,
            sg.end_ms,
            asr_reason(),
            sg.text@,
            CandidateSource::Asr,
        );
        lemma_push_keeps(acc, classify(sg.text@, acc.len() == 0), sg.start_ms, sg.end_ms, asr_reason(), sg.text@, CandidateSource::Asr);
        lemma_segments_keep(next, segs.drop_first());
        let r = mine_segments(acc, segs);
        assert(r.take(acc.len() as int) =~= r.take(next.len() as int).take(acc.len() as int));
    } else {
        assert(acc.take(acc.len() as int) =~= acc);
    }
}

proof fn lemma_ocr_keep(acc: Seq<CandidateView>, items: Seq<OcrInputItem>)
    ensures
        ({
            let r = mine_ocr(acc, items);
            &&& r.len() >= acc.len()
            &&& r.take(acc.len() as int) == acc
            &&& numbered(acc) ==> numbered(r)
        }),
    decreases items.len(),
{
    if items.len() > 0 {
        let it = items[0];
        let next = push_classified(
            acc,
            classify(it.text@, false),
            it.timestamp_ms,
            it.timestamp_ms,
            ocr_reason(),
            it.text@,
            CandidateSource::Ocr,
        );
        lemma_push_keeps(acc, classify(it.text@, false), it.timestamp_ms, it.timestamp_ms, ocr_reason(), it.text@, CandidateSource::Ocr);
        lemma_ocr_keep(next, items.drop_first());
        let r = mine_ocr(acc, items);
        assert(r.take(acc.len() as int) =~= r.take(next.len() as int).take(acc.len() as int));
    } else {
        assert(acc.take(acc.len() as int) =~= acc);
    }
}

proof fn lemma_opening_segment_hook(segs: Seq<TranscriptSegment>)
    ensures
        mine_segments(seq![], segs).len() > 0 ==> mine_segments(seq![], segs)[0].category == CandidateCategory::Hook
            && mine_segments(seq![], segs)[0].source == CandidateSource::Asr,
    decreases segs.len(),
{
    if segs.len() > 0 {
        let sg = segs[0];
        let empty = Seq::<CandidateView>::empty();
        let next = push_classified(
            empty,
            classify(sg.text@, true),
            sg.start_ms,
            sg.end_ms,
            asr_reason(),
            sg.text@,
            CandidateSource::Asr,
        );
        assert(empty.len() == 0);
        if next.len() == 0 {
            assert(next =~= empty);
            lemma_opening_segment_hook(segs.drop_first());
        } else {
            lemma_segments_keep(next, segs.drop_first());
            let r = mine_segments(next, segs.drop_first());
            assert(r[0] == r.take(next.len() as int)[0]);
        }
    }
}

/// Candidates are numbered in order: the `i`-th (from 0) is `candidate-`
/// and the three-digit number `i + 1`.
pub proof fn lemma_candidates_numbered(
    transcript: Option<TranscriptInput>,
    ocr_items: Seq<OcrInputItem>,
    reference_text: Option<Seq<char>>,
)
    ensures
        numbered(mine_spec(transcript, ocr_items, reference_text)),
{
    let a = match transcript {
        Some(t) => mine_transcript(t),
        None => seq![],
    };
    if let Some(t) = transcript {
        let e = Seq::<CandidateView>::empty();
        lemma_segments_keep(e, t.segments@);
        let m = mine_segments(e, t.segments@);
        lemma_push_keeps(m, Some(CandidateCategory::Hook), None, None, transcript_reason(), t.text@, CandidateSource::Asr);
    }
    lemma_ocr_keep(a, ocr_items);
    let b = mine_ocr(a, ocr_items);
    if let Some(r) = reference_text {
        lemma_push_keeps(b, classify(r, false), None, None, reference_reason(), r, CandidateSource::ReferenceText);
    }
}

/// The first candidate of a transcript that yields any is a hook from the
/// speech: the opening segment with text is always taken as the hook, and a
/// transcript without segments keeps its whole text as one. It stays first
/// among all candidates.
pub proof fn lemma_first_candidate_is_hook(
    t: TranscriptInput,
    ocr_items: Seq<OcrInputItem>,
    reference_text: Option<Seq<char>>,
)
    requires
        mine_transcript(t).len() > 0,
    ensures
        mine_spec(Some(t), ocr_items, reference_text)[0].category == CandidateCategory::Hook,
        mine_spec(Some(t), ocr_items, reference_text)[0].source == CandidateSource::Asr,
{
    let a = mine_transcript(t);
    lemma_opening_segment_hook(t.segments@);
    lemma_ocr_keep(a, ocr_items);
    let b = mine_ocr(a, ocr_items);
    assert(b[0] == b.take(a.len() as int)[0]);
    if let Some(r) = reference_text {
        lemma_push_keeps(b, classify(r, false), None, None, reference_reason(), r, CandidateSource::ReferenceText);
        let c = mine_spec(Some(t), ocr_items, reference_text);
        assert(c[0] == c.take(b.len() as int)[0]);
    }
}

fn push_candidate(
    candidates: &mut Vec<CandidateSegment>,
    category: CandidateCategory,
    start_ms: Option<i64>,
    end_ms: Option<i64>,
    reason: &str,
    text_excerpt: &str,
    source: CandidateSource,
)
    requires
        old(candidates).len() < usize::MAX,
    ensures
        final(candidates).len() == old(candidates).len() + 1,
        candidates_view(final(candidates)@) == push_classified(
            candidates_view(old(candidates)@),
            Some(category),
            start_ms,
            end_ms,
            reason@,
            text_excerpt@,
            source,
        ),
{
    let mut segment_id = String::new();
    segment_id.append("candidate-");
    push_padded_decimal(&mut segment_id, (candidates.len() + 1) as u64, 3);
    let chars = chars_of(text_excerpt);
    let excerpt = take_string(&chars, 180);
    let ghost before = candidates@;
    candidates.push(
        CandidateSegment {
            segment_id,
            category,
            start_ms,
            end_ms,
            reason: String::from_str(reason),
            text_excerpt: excerpt,
            source,
        },
    );
    assert(candidates_view(candidates@) =~= push_classified(
        candidates_view(before),
        Some(category),
        start_ms,
        end_ms,
        reason@,
        text_excerpt@,
        source,
    ));
}

/// Mines candidate segments: each transcript segment, OCR item and the
/// reference text that matches a keyword group yields one candidate, numbered
/// in order of discovery (see `mine_spec`).
pub fn mine_candidate_segments(
    transcript: Option<&TranscriptInput>,
    ocr_items: &[OcrInputItem],
    reference_text: Option<&str>,
) -> (r: Vec<CandidateSegment>)
    requires
        mining_fits(transcript, ocr_items@),
    ensures
        candidates_view(r@) == mine_spec(
            match transcript {
                Some(t) => Some(*t),
                None => None,
            },
            ocr_items@,
            match reference_text {
                Some(s) => Some(s@),
                None => None,
            },
        ),
{
    let mut candidates: Vec<CandidateSegment> = Vec::new();
    let ghost empty = candidates_view(candidates@);
    assert(empty =~= Seq::<CandidateView>::empty());
    let ghost nseg: int = match transcript {
        Some(t) => t.segments.len() as int,
        None => 0,
    };
    if let Some(transcript) = transcript {
        let segs = &transcript.segments;
        let mut i: usize = 0;
        assert(segs@.skip(0) =~= segs@);
        while i < segs.len()
            invariant
                i <= segs.len(),
                candidates.len() <= i,
                segs.len() + ocr_items.len() + 2 <= usize::MAX,
                mine_segments(candidates_view(candidates@), segs@.skip(i as int)) == mine_segments(
                    seq![],
                    segs@,
                ),
            decreases segs.len() - i,
        {
            let ghost cur = candidates_view(candidates@);
            let segment = &segs[i];
            let category = classify_text(segment.text.as_str(), candidates.len() == 0);
            if let Some(category) = category {
                push_candidate(
                    &mut candidates,
                    category,
                    segment.start_ms,
                    segment.end_ms,
                    "ASR segment matched short-video structure keywords",
                    segment.text.as_str(),
                    CandidateSource::Asr,
                );
            }
            assert(segs@.skip(i as int).drop_first() =~= segs@.skip(i + 1));
            assert(segs@.skip(i as int)[0] == segs@[i as int]);
            i = i + 1;
        }
        assert(segs@.skip(i as int) =~= Seq::<TranscriptSegment>::empty());
        let text_chars = chars_of(transcript.text.as_str());
        let trimmed = trim_chars(&text_chars);
        if candidates.len() == 0 && trimmed.len() != 0 {
            push_candidate(
                &mut candidates,
                CandidateCategory::Hook,
                None,
                None,
                "Transcript has no segments; full transcript kept as opening candidate",
                transcript.text.as_str(),
                CandidateSource::Asr,
            );
        }
    }
    let mut k: usize = 0;
    let ghost a = candidates_view(candidates@);
    assert(ocr_items@.skip(0) =~= ocr_items@);
    while k < ocr_items.len()
        invariant
            k <= ocr_items.len(),
            candidates.len() <= nseg + 1 + k,
            nseg + ocr_items.len() + 2 <= usize::MAX,
            mine_ocr(candidates_view(candidates@), ocr_items@.skip(k as int)) == mine_ocr(
                a,
                ocr_items@,
            ),
        decreases ocr_items.len() - k,
    {
        let item = &ocr_items[k];
        let category = classify_text(item.text.as_str(), false);
        if let Some(category) = category {
            push_candidate(
                &mut candidates,
                category,
                item.timestamp_ms,
                item.timestamp_ms,
                "OCR text matched visual evidence keywords",
                item.text.as_str(),
                CandidateSource::Ocr,
            );
        }
        assert(ocr_items@.skip(k as int).drop_first() =~= ocr_items@.skip(k + 1));
        assert(ocr_items@.skip(k as int)[0] == ocr_items@[k as int]);
        k = k + 1;
    }
    assert(ocr_items@.skip(k as int) =~= Seq::<OcrInputItem>::empty());
    if let Some(reference_text) = reference_text {
        if let Some(category) = classify_text(reference_text, false) {
            push_candidate(
                &mut candidates,
                category,
                None,
                None,
                "Reference text matched analysis keywords",
                reference_text,
                CandidateSource::ReferenceText,
            );
        }
    }
    candidates
}

} // verus!
