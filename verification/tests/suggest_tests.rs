use file_fairy::ollama::{
    filename_prompt, join_key_chunks, suggested_file_name, EmbeddingRequest, OllamaRequest,
    OllamaResponse,
};

#[test]
fn prompt_embeds_summary_and_name() {
    let p = filename_prompt("A report on quarterly sales.", "q3.pdf");
    assert!(p.contains("Content summary: A report on quarterly sales."));
    assert!(p.contains("Original filename: q3.pdf"));
    assert!(p.contains("Generate filename (without extension):"));
}

#[test]
fn key_chunks_join_with_blank_lines() {
    let chunks = vec!["one".to_string(), "two".to_string(), "three".to_string()];
    assert_eq!(join_key_chunks(&chunks), "one\n\ntwo\n\nthree");
    assert_eq!(join_key_chunks(&vec![]), "");
}

#[test]
fn suggestion_keeps_original_extension() {
    let out = suggested_file_name("Quarterly Sales Report", "/docs/q3 draft.pdf");
    assert_eq!(out, "Quarterly_Sales_Report.pdf");

    let out = suggested_file_name("Meeting Notes", "/docs/noext");
    assert_eq!(out, "Meeting_Notes");

    // a name ending in a dot has no extension: no dot survives
    let out = suggested_file_name("Meeting Notes", "/docs/draft.");
    assert_eq!(out, "Meeting_Notes");
    assert!(!out.ends_with('.'));
}

#[test]
fn suggestion_survives_hostile_model_output() {
    let out = suggested_file_name("///???", "/docs/a.txt");
    assert_eq!(out, "suggested_filename.txt");
}

#[test]
fn request_shapes_carry_their_fields() {
    let r = OllamaRequest {
        model: "m".to_string(),
        prompt: "p".to_string(),
        stream: false,
    };
    assert_eq!(r.model, "m");
    assert!(!r.stream);
    let e = EmbeddingRequest {
        model: "m".to_string(),
        prompt: "text".to_string(),
    };
    assert_eq!(e.prompt, "text");
    let resp = OllamaResponse {
        response: "name".to_string(),
        done: true,
    };
    assert!(resp.done);
    assert_eq!(resp.response, "name");
}
