use commitment_rs::clean_ai_response;

#[test]
fn clean_ai_response_with_markers() {
    let input = "Some preamble\n<<<COMMIT_MESSAGE_START>>>feat: add feature<<<COMMIT_MESSAGE_END>>>\nSome postamble";
    let result = clean_ai_response(input);
    assert_eq!(result, "feat: add feature");
}

#[test]
fn clean_ai_response_with_code_blocks() {
    let input = "```\nfeat: add feature\n```";
    let result = clean_ai_response(input);
    assert_eq!(result, "feat: add feature");
}

#[test]
fn clean_ai_response_with_inline_code_block() {
    let input = "```feat: add feature```";
    let result = clean_ai_response(input);
    assert_eq!(result, "feat: add feature");
}

#[test]
fn clean_ai_response_with_language_code_block() {
    let input = "```text\nfeat: add feature\n```";
    let result = clean_ai_response(input);
    assert_eq!(result, "feat: add feature");
}

#[test]
fn clean_ai_response_with_preamble_here_is() {
    let input = "Here is the commit message:\nfeat: add feature";
    let result = clean_ai_response(input);
    assert_eq!(result, "feat: add feature");
}

#[test]
fn clean_ai_response_with_preamble_heres() {
    let input = "Here's the commit message:\nfeat: add feature";
    let result = clean_ai_response(input);
    assert_eq!(result, "feat: add feature");
}

#[test]
fn clean_ai_response_with_preamble_the_commit() {
    let input = "The commit message:\nfeat: add feature";
    let result = clean_ai_response(input);
    assert_eq!(result, "feat: add feature");
}

#[test]
fn clean_ai_response_with_preamble_case_insensitive() {
    let input = "HERE IS THE COMMIT MESSAGE:\nfeat: add feature";
    let result = clean_ai_response(input);
    assert_eq!(result, "feat: add feature");
}

#[test]
fn clean_ai_response_with_thinking_tags() {
    let input = "<thinking>Let me analyze this diff...</thinking>\nfeat: add feature";
    let result = clean_ai_response(input);
    assert_eq!(result, "feat: add feature");
}

#[test]
fn clean_ai_response_with_thinking_multiline() {
    let input = "<thinking>\nLet me analyze...\nThis is a feature\n</thinking>\nfeat: add feature";
    let result = clean_ai_response(input);
    assert_eq!(result, "feat: add feature");
}

#[test]
fn clean_ai_response_with_multiple_newlines() {
    let input = "feat: add feature\n\n\n\nSome body text";
    let result = clean_ai_response(input);
    assert_eq!(result, "feat: add feature\n\nSome body text");
}

#[test]
fn clean_ai_response_collapses_many_newlines() {
    let input = "feat: add feature\n\n\n\n\n\nSome body";
    let result = clean_ai_response(input);
    assert_eq!(result, "feat: add feature\n\nSome body");
}

#[test]
fn clean_ai_response_preserves_double_newlines() {
    let input = "feat: add feature\n\nSome body text";
    let result = clean_ai_response(input);
    assert_eq!(result, "feat: add feature\n\nSome body text");
}

#[test]
fn clean_ai_response_trims_whitespace() {
    let input = "  \n  feat: add feature  \n  ";
    let result = clean_ai_response(input);
    assert_eq!(result, "feat: add feature");
}

#[test]
fn clean_ai_response_complex_combination() {
    let input = "\n<thinking>\nLet me analyze this diff to create a commit message.\n</thinking>\n\nHere is the commit message:\n\n```\n<<<COMMIT_MESSAGE_START>>>\nfeat(api): add user authentication\n\n\n\nThis implements JWT-based authentication.\n<<<COMMIT_MESSAGE_END>>>\n```\n";
    let result = clean_ai_response(input);
    assert_eq!(
        result,
        "feat(api): add user authentication\n\nThis implements JWT-based authentication."
    );
}

#[test]
fn clean_ai_response_plain_message() {
    let input = "feat: add feature";
    let result = clean_ai_response(input);
    assert_eq!(result, "feat: add feature");
}

#[test]
fn clean_ai_response_empty_string() {
    let input = "";
    let result = clean_ai_response(input);
    assert_eq!(result, "");
}

#[test]
fn clean_ai_response_whitespace_only() {
    let input = "   \n   \n   ";
    let result = clean_ai_response(input);
    assert_eq!(result, "");
}

#[test]
fn clean_extracts_inner_text_whatever_surrounds_markers() {
    let inner = "feat: add x";
    for (before, after) in [
        ("", ""),
        ("junk before ", " junk after"),
        ("Here is the commit message:\n\n", "\n\nmore trailing text"),
        ("<<<COMMIT_MESSAGE_END>>> stray end first ", ""),
    ] {
        let input = format!(
            "{}<<<COMMIT_MESSAGE_START>>>{}<<<COMMIT_MESSAGE_END>>>{}",
            before, inner, after
        );
        assert_eq!(clean_ai_response(&input), inner);
    }
}

#[test]
fn clean_is_idempotent_on_ordinary_responses() {
    let inputs = [
        "feat: add feature",
        "Here is the commit message:\n```\nfeat: add x\n\n\n\n- detail\n```",
        "<thinking>hm</thinking>\n<<<COMMIT_MESSAGE_START>>>fix: y<<<COMMIT_MESSAGE_END>>>",
        "   \n  ",
        "chore: tidy\n\n\n\n\nbody",
    ];
    for input in inputs {
        let once = clean_ai_response(input);
        let twice = clean_ai_response(&once);
        assert_eq!(twice, once, "not idempotent on: {}", input);
    }
}

#[test]
fn clean_output_never_keeps_long_newline_runs() {
    let inputs = [
        "a\n\n\nb",
        "a\n\n\n\n\n\n\nb\n\n\nc",
        "```\nx\n\n\n\ny\n```",
        "\n\n\n\n",
    ];
    for input in inputs {
        let out = clean_ai_response(input);
        assert!(!out.contains("\n\n\n"), "long newline run in: {:?}", out);
    }
}
