use mimo_tts::constants::{
    get_model_preset, get_voice_preset, is_valid_model, is_valid_voice, model_presets, voice_presets, DEFAULT_MODEL,
    DEFAULT_VOICE,
};
use mimo_tts::error::AppError;
use mimo_tts::listing::{build_task_list_query, group_page_params, page_of, page_window, SqlParam, PageWindow};
use mimo_tts::mimo::{
    check_http_status, decode_audio_reply, request_failed, synthesis_request, tokenize_request, AudioReply, MimoClient,
};
use mimo_tts::models::{
    default_model, BatchGroup, GroupResponse, GroupStatus, PaginatedResponse, RecordTimes, TaskStatus,
};

#[test]
fn test_batch_group_new() {
    let group = BatchGroup::new(
        "测试分组".to_string(),
        Some("nova".to_string()),
        "mimo-v2.5".to_string(),
        Some("测试上下文".to_string()),
    );
    assert!(!group.id.is_empty());
    assert_eq!(group.name, "测试分组");
    assert_eq!(group.voice, Some("nova".to_string()));
    assert_eq!(group.model, "mimo-v2.5".to_string());
    assert_eq!(group.context, Some("测试上下文".to_string()));
    assert_eq!(group.status, GroupStatus::Pending);
    assert!(group.task_ids.is_empty());
    assert_eq!(group.total_tasks, 0);
    assert_eq!(group.completed_tasks, 0);
    assert_eq!(group.failed_tasks, 0);
    assert_eq!(group.total_tokens, 0);
}

#[test]
fn test_batch_group_update_progress() {
    let mut group = BatchGroup::new("测试".to_string(), None, "mimo-v2.5".to_string(), None);
    group.task_ids = vec!["task1".to_string(), "task2".to_string(), "task3".to_string()];
    group.total_tasks = 3;
    group.update_progress(2, 1, 5000);
    assert_eq!(group.completed_tasks, 2);
    assert_eq!(group.failed_tasks, 1);
    assert_eq!(group.total_tokens, 5000);
    assert_eq!(group.status, GroupStatus::Completed);
}

#[test]
fn test_batch_group_status_display() {
    assert_eq!(GroupStatus::Pending.to_string(), "待处理");
    assert_eq!(GroupStatus::Processing.to_string(), "处理中");
    assert_eq!(GroupStatus::Paused.to_string(), "已暂停");
    assert_eq!(GroupStatus::Completed.to_string(), "已完成");
    assert_eq!(GroupStatus::Failed.to_string(), "失败");
}

#[test]
fn test_group_response_construction() {
    let mut group = BatchGroup::new("测试".to_string(), Some("nova".to_string()), "mimo-v2.5".to_string(), None);
    group.task_ids = vec!["task1".to_string()];
    group.total_tasks = 1;
    group.completed_tasks = 1;
    let response: GroupResponse<String> = GroupResponse {
        id: group.id.clone(),
        name: group.name.clone(),
        status: group.status,
        voice: group.voice.clone(),
        model: group.model.clone(),
        context: group.context.clone(),
        created_at: group.created_at,
        task_ids: group.task_ids.clone(),
        total_tasks: group.total_tasks,
        completed_tasks: group.completed_tasks,
        failed_tasks: group.failed_tasks,
        total_tokens: group.total_tokens,
        tasks: Vec::new(),
    };
    assert_eq!(response.name, "测试");
    assert_eq!(response.voice, Some("nova".to_string()));
    assert_eq!(response.model, "mimo-v2.5".to_string());
    assert_eq!(response.total_tasks, 1);
    assert_eq!(response.completed_tasks, 1);
}

#[test]
fn group_summary_copies_the_group() {
    let group = BatchGroup::new_at("g1".into(), "n".into(), None, "m".into(), None, 123);
    let s = group.to_summary();
    assert_eq!(s.id, "g1");
    assert_eq!(s.created_at, 123);
    assert_eq!(s.status, GroupStatus::Pending);
}

#[test]
fn group_update_settles_status() {
    let mut g = BatchGroup::new_at("g".into(), "n".into(), None, "m".into(), None, 0);
    g.total_tasks = 2;
    g.update_progress(1, 0, 0);
    assert_eq!(g.status, GroupStatus::Pending);
    g.update_progress(0, 2, 0);
    assert_eq!(g.status, GroupStatus::Failed);
    g.update_progress(1, 1, 0);
    assert_eq!(g.status, GroupStatus::Completed);
}

#[test]
fn statuses_parse_their_stored_names() {
    for g in [GroupStatus::Pending, GroupStatus::Processing, GroupStatus::Paused, GroupStatus::Completed, GroupStatus::Failed] {
        assert_eq!(GroupStatus::from_str(g.as_str()), Some(g));
    }
    assert_eq!(GroupStatus::from_str("Pending"), None);
    assert_eq!(TaskStatus::from_str("synthesizing"), Some(TaskStatus::Synthesizing));
    assert_eq!(TaskStatus::Streaming.to_string(), "流式加载");
    assert_eq!(TaskStatus::from_str("done"), None);
}

#[test]
fn record_times_follow_status() {
    let mut t = RecordTimes::new_at(1);
    t.update_status_at(TaskStatus::Synthesizing, 5);
    t.update_status_at(TaskStatus::Streaming, 6);
    assert_eq!(t.started_at, Some(5));
    assert_eq!(t.elapsed_millis_at(10), Some(5));
    t.update_status_at(TaskStatus::Completed, 9);
    assert_eq!(t.completed_at, Some(9));
    assert_eq!(t.elapsed_millis_at(100), Some(4));
    assert_eq!(RecordTimes::new_at(0).elapsed_millis_at(3), None);
}

#[test]
fn paginated_response_new_first_page() {
    let items = vec![1, 2, 3];
    let resp = PaginatedResponse::new(items, 10, 0, 3);
    assert_eq!(resp.page, 0);
    assert_eq!(resp.per_page, 3);
    assert_eq!(resp.total, 10);
    assert_eq!(resp.total_pages, 4);
    assert_eq!(resp.items.len(), 3);
}

#[test]
fn paginated_response_exact_fit() {
    let items = vec![1, 2, 3, 4, 5];
    let resp = PaginatedResponse::new(items, 5, 0, 5);
    assert_eq!(resp.total_pages, 1);
}

#[test]
fn paginated_response_empty() {
    let items: Vec<i32> = vec![];
    let resp = PaginatedResponse::new(items, 0, 0, 50);
    assert_eq!(resp.total_pages, 0);
    assert!(resp.items.is_empty());
}

#[test]
fn paginated_response_zero_per_page() {
    let items: Vec<i32> = vec![1];
    let resp = PaginatedResponse::new(items, 1, 0, 0);
    assert_eq!(resp.total_pages, 1);
}

#[test]
fn default_model_and_presets() {
    assert_eq!(default_model(), "mimo-v2.5-tts");
    assert_eq!(DEFAULT_MODEL, "mimo-v2.5-tts");
    assert!(is_valid_voice(DEFAULT_VOICE));
    assert!(is_valid_voice("Dean"));
    assert!(!is_valid_voice("dean"));
    assert!(is_valid_model("mimo-v2.5-tts"));
    assert!(!is_valid_model("tts-1"));
    let v = get_voice_preset("Mia").unwrap();
    assert_eq!(v.language, "English");
    assert_eq!(v.gender, "Female");
    assert!(get_voice_preset("nobody").is_none());
    assert_eq!(get_model_preset("mimo-v2.5-tts").unwrap().name, "MiMo TTS v2.5");
    assert_eq!(voice_presets().len(), 8);
    assert_eq!(model_presets().len(), 1);
}

#[test]
fn client_urls_and_bodies() {
    let c = MimoClient::new("k", "https://api.example.com//");
    assert_eq!(c.base_url, "https://api.example.com");
    assert_eq!(c.synthesize_url(), "https://api.example.com/v1/chat/completions");
    assert_eq!(c.tokenize_url(), "https://api.example.com/v1/tokenize");
    let r = synthesis_request("你好", "冰糖", "mimo-v2.5-tts");
    assert_eq!(r.messages.len(), 2);
    assert_eq!(r.messages[0].role, "user");
    assert_eq!(r.messages[0].content, "");
    assert_eq!(r.messages[1].role, "assistant");
    assert_eq!(r.messages[1].content, "你好");
    assert_eq!(r.audio.format, "wav");
    assert_eq!(r.audio.voice, "冰糖");
    assert!(!r.stream);
    assert_eq!(tokenize_request("x").model, "mimo-v2.5-tts");
}

#[test]
fn test_synthesize_rate_limited() {
    assert_eq!(check_http_status("synthesize", 429, "Too Many Requests", ""), Err(AppError::RateLimited));
}

#[test]
fn test_synthesize_server_error() {
    match check_http_status("synthesize", 500, "Internal Server Error", "boom") {
        Err(AppError::Internal(m)) => assert_eq!(m, "synthesize returned 500 Internal Server Error: boom"),
        other => panic!("unexpected {:?}", other),
    }
    assert!(m_contains_code());
    assert!(check_http_status("synthesize", 200, "OK", "").is_ok());
    assert!(check_http_status("synthesize", 299, "", "").is_ok());
    match request_failed("tokenize", "timed out") {
        AppError::Internal(m) => assert_eq!(m, "tokenize request failed: timed out"),
        other => panic!("unexpected {:?}", other),
    }
}

#[test]
fn test_synthesize_returns_wav_bytes() {
    // "UklGRiQAAABXQVZF" is base64 of the first 12 bytes of a WAV header
    let bytes = decode_audio_reply(&AudioReply::Data("UklGRiQAAABXQVZF".into())).unwrap();
    assert_eq!(bytes, b"RIFF\x24\x00\x00\x00WAVE".to_vec());
}

#[test]
fn audio_reply_failures() {
    match decode_audio_reply(&AudioReply::NoChoices) {
        Err(AppError::Internal(m)) => assert_eq!(m, "synthesize returned no choices"),
        other => panic!("unexpected {:?}", other),
    }
    match decode_audio_reply(&AudioReply::NoAudio) {
        Err(AppError::Internal(m)) => assert_eq!(m, "synthesize returned no audio data"),
        other => panic!("unexpected {:?}", other),
    }
    match decode_audio_reply(&AudioReply::Data("@@not base64@@".into())) {
        Err(AppError::Internal(m)) => assert!(m.starts_with("synthesize base64 decode failed: ")),
        other => panic!("unexpected {:?}", other),
    }
}

#[test]
fn task_list_sql_without_filters() {
    let q = build_task_list_query(2, 10, None, Some(""), None, None);
    assert_eq!(q.count_sql, "SELECT COUNT(*) FROM tasks ");
    assert!(q.select_sql.ends_with("FROM tasks  ORDER BY created_at DESC LIMIT ?1 OFFSET ?2"));
    assert!(q.filter_params.is_empty());
    assert_eq!(q.page_params, vec![SqlParam::Int(10), SqlParam::Int(20)]);
}

#[test]
fn task_list_sql_with_filters_and_sort() {
    let q = build_task_list_query(0, 5, Some("pending"), Some("Hello"), Some(" status "), Some("g1"));
    assert_eq!(
        q.count_sql,
        "SELECT COUNT(*) FROM tasks WHERE status = ?1 AND custom_title LIKE ?2 AND group_id = ?3"
    );
    assert!(q.select_sql.ends_with(
        "WHERE status = ?1 AND custom_title LIKE ?2 AND group_id = ?3 ORDER BY status ASC, created_at DESC LIMIT ?4 OFFSET ?5"
    ));
    assert_eq!(
        q.filter_params,
        vec![SqlParam::Text("pending".into()), SqlParam::Text("%Hello%".into()), SqlParam::Text("g1".into())]
    );
    assert_eq!(q.page_params.len(), 5);
    let q = build_task_list_query(0, 5, None, None, Some("created_at_asc"), Some("g"));
    assert!(q.select_sql.ends_with("WHERE group_id = ?1 ORDER BY created_at ASC LIMIT ?2 OFFSET ?3"));
    let q = build_task_list_query(0, 5, None, None, Some("char_count"), None);
    assert!(q.select_sql.contains("ORDER BY char_count ASC, created_at DESC"));
    assert_eq!(group_page_params(3, 4), vec![SqlParam::Int(4), SqlParam::Int(12)]);
}

#[test]
fn api_page_window_and_slice() {
    assert_eq!(page_window(None, None), PageWindow { page: 0, page_size: 50, start: 0 });
    assert_eq!(page_window(Some(-3), Some(0)), PageWindow { page: 0, page_size: 1, start: 0 });
    assert_eq!(page_window(Some(2), Some(500)), PageWindow { page: 2, page_size: 200, start: 400 });
    let items: Vec<i32> = (0..7).collect();
    assert_eq!(page_of(items.clone(), 3, 3), vec![3, 4, 5]);
    assert_eq!(page_of(items.clone(), 6, 3), vec![6]);
    assert_eq!(page_of(items, 9, 3), Vec::<i32>::new());
}

fn m_contains_code() -> bool {
    match check_http_status("tokenize", 503, "Service Unavailable", "") {
        Err(AppError::Internal(m)) => m.contains("503") && m == "tokenize returned 503 Service Unavailable: ",
        _ => false,
    }
}

#[test]
fn test_tokenize_authorization() {
    let client = MimoClient::new("test-key-123", "http://127.0.0.1:1");
    assert_eq!(client.tokenize_url(), "http://127.0.0.1:1/v1/tokenize");
    assert_eq!(client.tokenize_headers(), vec![("Authorization".to_string(), "Bearer test-key-123".to_string())]);
    assert_eq!(tokenize_request("hello").text, "hello");
}
