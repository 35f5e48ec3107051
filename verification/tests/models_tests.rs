use academic_workflow::model::{
    estimate_memory_usage, BuildError, ModelBuilder, ModelPaths, QuantizationMode,
};
use academic_workflow::models::{CliConfig, SubmissionMetadata, TmaSubmission};
use academic_workflow::output::{format_duration, truncate, OutputFormat};
use academic_workflow::protocol::{
    alignment_counts, default_max_tokens, default_temperature, default_top_p,
    initialization_error, processing_error, request_line, to_prompt, InferenceRequest,
};

#[test]
fn test_tma_submission_default() {
    let submission = TmaSubmission::default();
    assert!(submission.student_id.is_none());
    assert!(submission.assignment_id.is_none());
    assert_eq!(submission.file_path, "");
}

#[test]
fn test_model_builder() {
    let config = ModelBuilder::new()
        .model_path("/test/model.safetensors")
        .tokenizer_path("/test/tokenizer.json")
        .quantization(QuantizationMode::Q8)
        .build()
        .unwrap();

    assert_eq!(config.model_path, "/test/model.safetensors");
}

#[test]
fn test_prompt_formatting() {
    let prompt = to_prompt(
        1,
        "Discuss the impact of climate change.",
        "Award 10 marks for comprehensive discussion.",
        Some("Climate change affects weather patterns."),
    );
    assert!(prompt.contains("Question 1"));
    assert!(prompt.contains("climate change"));
    assert!(prompt.contains("weather patterns"));
}

#[test]
fn prompt_is_laid_out_exactly() {
    assert_eq!(
        to_prompt(12, "context", "rubric", None),
        "<|im_start|>system\nYou are an expert academic grader assistant. Your task is to provide constructive feedback on student answers based on the provided rubric. Be objective, specific, and helpful.\n<|im_end|>\n<|im_start|>user\nQuestion 12\n\nTMA Context:\ncontext\n\nGrading Rubric:\nrubric\n\nProvide detailed feedback based on the rubric:\n<|im_end|>\n<|im_start|>assistant\n"
    );
    assert!(to_prompt(1, "c", "r", Some("mine")).contains("r\n\nStudent Answer:\nmine\n\nProvide"));
    assert_eq!(default_max_tokens(), 512);
    assert_eq!(f64::from_bits(default_temperature()), 0.7);
    assert_eq!(f64::from_bits(default_top_p()), 0.9);
}

#[test]
fn builder_reports_what_is_missing() {
    assert_eq!(ModelBuilder::new().build().unwrap_err(), BuildError::MissingModelPath);
    assert_eq!(
        ModelBuilder::new().tokenizer_path("t").build().unwrap_err(),
        BuildError::MissingModelPath
    );
    assert_eq!(
        ModelBuilder::new().model_path("m").build().unwrap_err(),
        BuildError::MissingTokenizerPath
    );
    let paths = ModelBuilder::default().model_path("m").tokenizer_path("t").build().unwrap();
    assert_eq!(paths.tokenizer_path, "t");
    assert_eq!(paths.quantization, QuantizationMode::Q4);
    assert_eq!(BuildError::MissingModelPath.to_string(), "Model path not specified");
}

#[test]
fn defaults_of_the_records() {
    let metadata = SubmissionMetadata::default();
    assert!(metadata.submitted_at.is_none() && metadata.file_size.is_none());
    let cli = CliConfig::default();
    assert_eq!(cli.output_format, "text");
    assert!(cli.color_enabled && !cli.verbose);
    assert_eq!(cli.api_timeout, 30);
}

#[test]
fn test_format_duration() {
    assert_eq!(format_duration(30), "30s");
    assert_eq!(format_duration(90), "1m 30s");
    assert_eq!(format_duration(3661), "1h 1m 1s");
}

#[test]
fn test_truncate() {
    assert_eq!(truncate("Hello", 10), "Hello");
    assert_eq!(truncate("Hello World!", 8), "Hello...");
}

#[test]
fn durations_and_formats() {
    assert_eq!(format_duration(0), "0s");
    assert_eq!(format_duration(3600), "1h 0m 0s");
    assert_eq!(format_duration(u64::MAX), "5124095576030431h 0m 15s");
    assert_eq!(OutputFormat::from_str("JSON"), OutputFormat::Json);
    assert_eq!(OutputFormat::from_str("yaml"), OutputFormat::Text);
    assert_eq!(truncate("abc", 3), "abc");
    assert_eq!(truncate("abcd", 3), "...");
}

fn request() -> InferenceRequest {
    InferenceRequest {
        tma_content: "Test content".to_string(),
        rubric: "Test rubric".to_string(),
        question_number: 1,
        student_answer: None,
        max_tokens: 512,
        temperature: 0.7f64.to_bits(),
        top_p: 0.9f64.to_bits(),
    }
}

#[test]
fn protocol_test_request_validation() {
    let mut req = request();

    assert!(req.validate().is_ok());

    // Test invalid temperature
    req.temperature = 3.0f64.to_bits();
    assert!(req.validate().is_err());

    req.temperature = 0.7f64.to_bits();

    // Test invalid max_tokens
    req.max_tokens = 0;
    assert!(req.validate().is_err());
}

#[test]
fn request_reasons_in_order() {
    let check = |change: &dyn Fn(&mut InferenceRequest)| {
        let mut req = request();
        change(&mut req);
        req.validate()
    };
    assert_eq!(
        check(&|r| {
            r.tma_content.clear();
            r.rubric.clear()
        }),
        Err("TMA content cannot be empty".to_string())
    );
    assert_eq!(check(&|r| r.rubric.clear()), Err("Rubric cannot be empty".to_string()));
    for bad in [-0.1f64, 2.000001, f64::INFINITY, f64::NEG_INFINITY, -f64::MIN_POSITIVE] {
        assert_eq!(
            check(&|r| r.temperature = bad.to_bits()),
            Err("Temperature must be between 0.0 and 2.0".to_string())
        );
    }
    for ok in [0.0f64, -0.0, 2.0, 1.0, f64::MIN_POSITIVE, f64::NAN] {
        assert_eq!(check(&|r| r.temperature = ok.to_bits()), Ok(()));
    }
    assert_eq!(
        check(&|r| r.top_p = 1.5f64.to_bits()),
        Err("Top-p must be between 0.0 and 1.0".to_string())
    );
    assert_eq!(check(&|r| r.top_p = 1.0f64.to_bits()), Ok(()));
    assert_eq!(
        check(&|r| r.max_tokens = 4097),
        Err("Max tokens must be between 1 and 4096".to_string())
    );
    assert_eq!(check(&|r| r.max_tokens = 4096), Ok(()));
    let mut req = request();
    req.student_answer = Some("mine".to_string());
    assert_eq!(req.to_prompt(), to_prompt(1, "Test content", "Test rubric", Some("mine")));
}

#[test]
fn settings_name_the_model() {
    let paths = ModelPaths::from_settings(None, None, None);
    assert_eq!(paths.model_path, "/models/mistral-7b/model.safetensors");
    assert_eq!(paths.tokenizer_path, "/models/mistral-7b/tokenizer.json");
    assert_eq!(paths.quantization, QuantizationMode::Q4);

    let paths = ModelPaths::from_settings(
        Some("/test/model.safetensors".to_string()),
        Some("/test/tokenizer.json".to_string()),
        Some("q8"),
    );
    assert_eq!(paths.model_path, "/test/model.safetensors");
    assert_eq!(paths.tokenizer_path, "/test/tokenizer.json");
    assert_eq!(paths.quantization, QuantizationMode::Q8);

    let named = |name: &str| ModelPaths::from_settings(None, None, Some(name)).quantization;
    assert_eq!(named("none"), QuantizationMode::Unquantized);
    assert_eq!(named("fp16"), QuantizationMode::Unquantized);
    assert_eq!(named("q4"), QuantizationMode::Q4);
    assert_eq!(named("Q8"), QuantizationMode::Q4);
    assert_eq!(ModelPaths::new_default().quantization, QuantizationMode::Q4);
}

#[test]
fn memory_estimates() {
    assert_eq!(estimate_memory_usage(false, Some("q4")), 14_000_000_000);
    assert_eq!(estimate_memory_usage(true, Some("q4")), 7_000_000_000);
    assert_eq!(estimate_memory_usage(true, Some("q8")), 7_000_000_000);
    assert_eq!(estimate_memory_usage(true, Some("fp16")), 14_000_000_000);
    assert_eq!(estimate_memory_usage(true, None), 14_000_000_000);
}

#[test]
fn request_lines_and_errors() {
    assert_eq!(request_line("  {\"a\":1}\r\n").as_deref(), Some("{\"a\":1}"));
    assert_eq!(request_line(" \t\n"), None);
    assert_eq!(request_line(""), None);
    let e = processing_error("m".to_string(), "d".to_string());
    assert_eq!((e.error_type.as_str(), e.message.as_str(), e.details.as_deref()), ("processing_error", "m", Some("d")));
    let e = initialization_error("m".to_string(), "d".to_string());
    assert_eq!(e.error_type, "initialization_error");
}

#[test]
fn alignment_counts_key_terms() {
    // Key terms: "award", "marks", "comprehensive", "discussion."
    let rubric = "Award 10 marks for a COMPREHENSIVE discussion.";
    assert_eq!(alignment_counts("A comprehensive answer that earns marks", rubric), (2, 4));
    assert_eq!(alignment_counts("AWARD marks; comprehensive discussion.", rubric), (4, 4));
    assert_eq!(alignment_counts("nothing", rubric), (0, 4));
    assert_eq!(alignment_counts("anything", "a bc def ghij"), (0, 0));
    // A word of three characters that takes six bytes is a key term.
    assert_eq!(alignment_counts("ééé", "ééé"), (1, 1));
    // A key term that comes twice counts twice.
    assert_eq!(alignment_counts("marks", "marks  marks\tmarks"), (3, 3));
}
