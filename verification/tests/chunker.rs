use mimo_tts::chunker::{
    estimate_token_count, split_sentences, tokenize_local, ChunkSegment, MimoChunker, SentenceInfo,
};
use mimo_tts::error::AppError;

const TEXT_5_SENTENCES: &str = "这是第一个句子。第二个句子内容。第三个句子在这里。第四句。第五句最后。";

fn sentence(text: &str, tokens: i64, chars: i64) -> SentenceInfo {
    SentenceInfo { text: text.to_string(), token_count: tokens, char_count: chars }
}

#[test]
fn test_split_sentences_function() {
    let result = split_sentences("第一句。第二句！第三句？");
    assert_eq!(result.len(), 3);
    assert_eq!(result[0], "第一句。");
    assert_eq!(result[1], "第二句！");
    assert_eq!(result[2], "第三句？");
}

#[test]
fn test_chunker_estimate_tokens_chinese() {
    assert_eq!(MimoChunker::estimate_tokens("你好世界"), 5);
}

#[test]
fn test_chunker_estimate_tokens_english() {
    assert_eq!(MimoChunker::estimate_tokens("hello world"), 4);
}

#[test]
fn test_chunker_estimate_tokens_mixed() {
    assert_eq!(MimoChunker::estimate_tokens("中文abc"), 4);
}

#[test]
fn local_token_count_weighs_cjk_double() {
    // 4 CJK characters count 2 each; 11 others count 0.3 each, rounded down
    assert_eq!(estimate_token_count("你好世界"), 8);
    assert_eq!(estimate_token_count("hello world"), 3);
    assert_eq!(estimate_token_count(""), 1);
}

#[test]
fn split_sentences_keeps_trailing_text() {
    let result = split_sentences("  一。 二  ");
    assert_eq!(result, vec!["一。".to_string(), "二".to_string()]);
    assert!(split_sentences("   ").is_empty());
}

#[test]
fn test_chunker_sdk_tokenize_returns_sentences() {
    let chunker = MimoChunker::new("http://localhost:1/", 1000, 2000);
    assert_eq!(chunker.tokenize_url(), "http://localhost:1/v1/tokenize");
    let remote = Ok(vec![
        sentence("你好世界。", 6, 5),
        sentence("今天天气真好。", 8, 6),
        sentence("我们去公园吧。", 7, 6),
    ]);
    let result = chunker.tokenize("你好世界。今天天气真好。我们去公园吧。", remote).unwrap();
    assert_eq!(result.len(), 3);
    assert_eq!(result[0].text, "你好世界。");
    assert_eq!(result[0].token_count, 6);
    assert_eq!(result[1].text, "今天天气真好。");
    assert_eq!(result[2].char_count, 6);
}

#[test]
fn test_chunker_split_normal_text() {
    let chunker = MimoChunker::new("http://localhost:1", 100, 500);
    let remote: Vec<SentenceInfo> =
        (0..5).map(|i| sentence(&format!("这是第{}个句子。相关内容。", i + 1), 40, 12)).collect();
    let chunks = chunker.split(TEXT_5_SENTENCES, None, Ok(remote)).unwrap();
    assert_eq!(chunks.len(), 3, "Expected 3 chunks from 5 sentences at target=100");
    for chunk in &chunks {
        assert!(!chunk.text.is_empty(), "No empty chunks");
    }
}

#[test]
fn test_chunker_split_with_context_hint() {
    let chunker = MimoChunker::new("http://localhost:1", 500, 1000);
    let remote: Vec<SentenceInfo> = (0..3).map(|i| sentence(&format!("句子{}。", i + 1), 10, 4)).collect();
    let chunks = chunker.split("句子1。句子2。句子3。", Some("激昂"), Ok(remote)).unwrap();
    assert_eq!(chunks.len(), 1);
    assert_eq!(chunks[0].context_hint.as_deref(), Some("激昂"));
}

#[test]
fn test_chunker_split_single_huge_sentence() {
    let chunker = MimoChunker::new("http://localhost:1", 2000, 100);
    let huge_text = "哈".repeat(2000);
    let remote = vec![sentence(&huge_text, 2600, 2000)];
    let chunks = chunker.split(&huge_text, None, Ok(remote)).unwrap();
    assert!(chunks.len() >= 2, "Huge sentence should be force-split into >=2 chunks, got {}", chunks.len());
    let total: String = chunks.iter().map(|c: &ChunkSegment| c.text.clone()).collect();
    assert_eq!(total.len(), huge_text.len());
}

#[test]
fn test_chunker_split_empty() {
    let chunker = MimoChunker::new("http://localhost:1", 100, 500);
    let chunks = chunker.split("", None, Ok(Vec::new())).unwrap();
    assert!(chunks.is_empty(), "Empty text should produce 0 chunks");
    let chunks = chunker.split("  ", None, Ok(Vec::new())).unwrap();
    assert!(chunks.is_empty(), "Whitespace-only text should produce 0 chunks");
}

#[test]
fn test_chunker_fallback_heuristic() {
    let chunker = MimoChunker::new("http://localhost:1", 100, 500);
    let text = "第一句。第二句。第三句。第四句。第五句。";
    let failed: Result<Vec<SentenceInfo>, AppError> = Err(AppError::Internal("tokenize returned 500".into()));
    let chunks = chunker.split(text, None, failed).unwrap();
    assert!(!chunks.is_empty(), "Fallback should produce chunks");
    let total_chars: i64 = chunks.iter().map(|c| c.char_count).sum();
    assert!(total_chars > 0, "Total chars should be > 0");
}

#[test]
fn local_tokenizer_splits_on_sentence_marks() {
    let s = tokenize_local("第一句。第二句！");
    assert_eq!(s.len(), 2);
    assert_eq!(s[0].text, "第一句。");
    assert_eq!(s[0].char_count, 4);
    assert_eq!(s[1].text, "第二句！");
}

#[test]
fn forced_pieces_rebuild_the_sentence_within_the_cap() {
    let text: String = "长句".repeat(50);
    let sentence = mimo_tts::chunker::SentenceInfo { text: text.clone(), token_count: 200, char_count: 100 };
    let pieces = mimo_tts::chunker::force_split_sentence(&sentence, Some("calm"), 30);
    let joined: String = pieces.iter().map(|p| p.text.as_str()).collect();
    assert_eq!(joined, text);
    assert!(pieces.len() > 1);
    for (i, p) in pieces.iter().enumerate() {
        assert!(p.char_count >= 1);
        assert!(p.token_count <= 30, "piece {} has {} tokens", i, p.token_count);
        assert_eq!(p.context_hint.is_some(), i == 0);
    }
}

#[test]
fn oversized_sentence_after_accumulated_text_is_force_split() {
    let s = vec![
        SentenceInfo { text: "短句。".into(), token_count: 40, char_count: 3 },
        SentenceInfo { text: "哈".repeat(100), token_count: 200, char_count: 100 },
    ];
    assert!(mimo_tts::chunker::pack_sums_check(&s, 100, 150));
    let chunks = mimo_tts::chunker::build_chunks_from_sentences(&s, None, 100, 150);
    assert!(chunks.iter().all(|c| c.token_count <= 150));
    let texts: Vec<&str> = chunks.iter().map(|c| c.text.as_str()).collect();
    assert_eq!(texts, vec!["短句。".to_string(), "哈".repeat(75), "哈".repeat(25)]);
    let counts: Vec<(i64, i64)> = chunks.iter().map(|c| (c.char_count, c.token_count)).collect();
    assert_eq!(counts, vec![(3, 40), (75, 150), (25, 50)]);
}

#[test]
fn force_split_takes_one_character_when_the_cap_allows_less() {
    let sentence = SentenceInfo { text: "abc".into(), token_count: 30, char_count: 3 };
    let pieces = mimo_tts::chunker::force_split_sentence(&sentence, None, 5);
    let texts: Vec<&str> = pieces.iter().map(|p| p.text.as_str()).collect();
    assert_eq!(texts, vec!["a", "b", "c"]);
    assert!(pieces.iter().all(|p| p.char_count == 1 && p.token_count == 10));
}

#[test]
fn running_sums_that_overflow_are_caught() {
    let s = vec![
        SentenceInfo { text: "a".into(), token_count: i64::MAX - 1, char_count: 1 },
        SentenceInfo { text: "b".into(), token_count: 5, char_count: 1 },
    ];
    assert!(!mimo_tts::chunker::pack_sums_check(&s, i64::MAX, i64::MAX));
    // The sum is formed before the flush decision, so a lower target does not help.
    assert!(!mimo_tts::chunker::pack_sums_check(&s, 10, i64::MAX));
    // An oversized sentence is cut, not summed.
    assert!(mimo_tts::chunker::pack_sums_check(&s, 10, 100));
}
