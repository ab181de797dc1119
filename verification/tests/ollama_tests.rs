use findybara::ollama::{
    modelfile_contents, reply_text, strip_think_block, OllamaManager, ServerWait, WaitStep,
    SERVER_PROBE_LIMIT,
};

#[test]
fn manager_addresses() {
    let m = OllamaManager::new(11435, "findybara-model");
    assert_eq!(m.port, 11435);
    assert_eq!(m.model_name, "findybara-model");
    assert_eq!(m.get_base_url(), "http://127.0.0.1:11435");
    assert_eq!(m.endpoint("/api/tags"), "http://127.0.0.1:11435/api/tags");
    assert_eq!(m.endpoint("/"), "http://127.0.0.1:11435/");
    assert_eq!(m.host_env(), "127.0.0.1:11435");
}

#[test]
fn base_url_edge_ports() {
    assert_eq!(OllamaManager::new(0, "m").get_base_url(), "http://127.0.0.1:0");
    assert_eq!(OllamaManager::new(65535, "m").get_base_url(), "http://127.0.0.1:65535");
    assert_eq!(OllamaManager::new(10, "m").host_env(), "127.0.0.1:10");
}

fn names(v: &[Option<&str>]) -> Option<Vec<Option<String>>> {
    Some(v.iter().map(|n| n.map(|s| s.to_string())).collect())
}

#[test]
fn model_listed_bare_or_tagged() {
    let m = OllamaManager::new(11435, "findybara-model");
    assert!(m.model_is_listed(&names(&[Some("findybara-model")])));
    assert!(m.model_is_listed(&names(&[Some("llama3:8b"), Some("findybara-model:latest")])));
    assert!(!m.model_is_listed(&names(&[Some("llama3:8b"), None, Some("findybara")])));
    assert!(!m.model_is_listed(&names(&[])));
    assert!(!m.model_is_listed(&None));
}

#[test]
fn model_without_name_counts_as_empty_name() {
    let empty = OllamaManager::new(1, "");
    assert!(empty.model_is_listed(&names(&[None])));
    let m = OllamaManager::new(1, "x");
    assert!(!m.model_is_listed(&names(&[None])));
}

#[test]
fn modelfile_text() {
    assert_eq!(modelfile_contents("/data/model.gguf"), "FROM /data/model.gguf\n");
}

#[test]
fn think_block_is_removed() {
    assert_eq!(strip_think_block("<think>plan it</think>\n\nThe file is big."), "The file is big.");
    assert_eq!(strip_think_block("Before <think>x</think> after"), "Before  after");
}

#[test]
fn dangling_close_tag_keeps_what_follows() {
    assert_eq!(strip_think_block("half a thought</think>  Answer here "), "Answer here");
    assert_eq!(strip_think_block("a</think>b<think>c"), "b<think>c");
}

#[test]
fn reply_without_tags_is_trimmed() {
    assert_eq!(strip_think_block("  plain answer \n"), "plain answer");
    assert_eq!(strip_think_block("<think>never closed"), "<think>never closed");
    assert_eq!(strip_think_block(""), "");
    let s = "\u{3000}\u{a0}hi there\u{2029}\t";
    assert_eq!(strip_think_block(s), s.trim());
}

#[test]
fn cleaned_reply_is_always_trimmed() {
    for s in [" <think> a </think> b ", "\n</think>\n", "x </think>", " y ", "<think></think>"] {
        let r = strip_think_block(s);
        assert_eq!(r.trim(), r);
    }
}

#[test]
fn reply_text_of_missing_content_is_empty() {
    assert_eq!(reply_text(None), "");
    assert_eq!(reply_text(Some("<think>hm</think> Yes.")), "Yes.");
}

#[test]
fn wait_gives_up_after_the_probe_limit() {
    let mut w = ServerWait::new();
    let mut probes = 0;
    loop {
        match w.next_step() {
            WaitStep::Probe => {
                probes += 1;
                assert!(matches!(w.record_probe(false), WaitStep::Sleep));
            },
            WaitStep::GiveUp => break,
            _ => panic!("unexpected step"),
        }
    }
    assert_eq!(probes, SERVER_PROBE_LIMIT);
    assert_eq!(probes, 40);
}

#[test]
fn wait_ends_on_a_healthy_probe() {
    let mut w = ServerWait::new();
    assert!(matches!(w.next_step(), WaitStep::Probe));
    assert!(matches!(w.record_probe(false), WaitStep::Sleep));
    assert!(matches!(w.next_step(), WaitStep::Probe));
    assert!(matches!(w.record_probe(true), WaitStep::Ready));
}

#[test]
fn white_space_agrees_with_std_trim() {
    for u in (0u32..0x3100).chain(0xFEFF..0xFF00).chain([0x1_0000, 0x10_FFFF]) {
        if let Some(c) = char::from_u32(u) {
            let s = format!("{c}x{c}");
            assert_eq!(strip_think_block(&s), s.trim(), "U+{:04X}", u);
        }
    }
}
