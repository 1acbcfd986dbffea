use base64::Engine;
use captcha_solver::api::captcha::{
    batch_result, calculate_hash, check_batch_size, decode_base64_image, load_image,
    process_single_image,
};
use captcha_solver::api::health::{
    database_status, health_check, health_http_status, overall_status, ready_check, solver_status,
    HealthStatus,
};
use captcha_solver::api::logs::{
    export_csv, judge_prediction, ExportQuery, ExportRow, LogsQuery,
};
use captcha_solver::api::models::{
    check_default_candidate, check_model_type, model_file_path, UploadModelRequest,
};
use captcha_solver::api::stats::TimeSeriesQuery;
use captcha_solver::api::training::{
    check_cancellable, default_batch_size, default_epochs, validate_training, ListJobsQuery,
    TrainingStatus,
};
use captcha_solver::config::ModelsSettings;
use captcha_solver::error::{CaptchaError, CaptchaResult};
use captcha_solver::models::{BatchSolveRequest, PreprocessOptions, SolveRequest};
use captcha_solver::raster::{PixelFormat, RasterImage};
use captcha_solver::solvers::{Inference, SolveResult, SolverManager};

fn png_of(image: image::DynamicImage) -> Vec<u8> {
    let mut bytes = Vec::new();
    image
        .write_to(&mut std::io::Cursor::new(&mut bytes), image::ImageOutputFormat::Png)
        .unwrap();
    bytes
}

fn white_png(width: u32, height: u32) -> Vec<u8> {
    png_of(image::DynamicImage::ImageRgb8(image::RgbImage::from_pixel(
        width,
        height,
        image::Rgb([255, 255, 255]),
    )))
}

fn manager() -> SolverManager {
    SolverManager::new(&ModelsSettings {
        path: "/tmp/models".to_string(),
        default_model: "ocr".to_string(),
        ocr_enabled: true,
        cnn_enabled: true,
    })
    .unwrap()
}

fn fixed_text(_input: &RasterImage) -> CaptchaResult<Inference> {
    Ok(Inference::Text { text: "X7".to_string(), confidence: 900_000 })
}

fn status(status: &str) -> HealthStatus {
    HealthStatus { status: status.to_string(), message: None }
}

#[test]
fn base64_text_is_decoded() {
    assert_eq!(decode_base64_image("aGVsbG8=").unwrap(), b"hello".to_vec());
    assert_eq!(decode_base64_image("").unwrap(), Vec::<u8>::new());
    assert_eq!(decode_base64_image("AAEC/w==").unwrap(), vec![0, 1, 2, 255]);
}

#[test]
fn a_data_url_is_reduced_to_its_payload() {
    assert_eq!(
        decode_base64_image("data:image/png;base64,aGVsbG8=").unwrap(),
        b"hello".to_vec()
    );
    // What follows the last comma counts.
    assert_eq!(decode_base64_image("a,b,aGVsbG8=").unwrap(), b"hello".to_vec());
    assert_eq!(decode_base64_image("aGVsbG8=,").unwrap(), Vec::<u8>::new());
    assert_eq!(decode_base64_image("éé,aGVsbG8=").unwrap(), b"hello".to_vec());
}

#[test]
fn bad_base64_is_an_invalid_image() {
    match decode_base64_image("not base64!") {
        Err(CaptchaError::InvalidImage(reason)) => assert!(reason.starts_with("Invalid base64: ")),
        _ => panic!("expected an invalid image"),
    }
    assert!(matches!(decode_base64_image("aGVsbG8"), Err(CaptchaError::InvalidImage(_))));
    assert!(matches!(
        decode_base64_image("aGVsbG8=,data:"),
        Err(CaptchaError::InvalidImage(_))
    ));
}

#[test]
fn hash_is_sha256_in_hexadecimal() {
    assert_eq!(
        calculate_hash(b"hello"),
        "2cf24dba5fb0a30e26e83b2ac5b9e29e1b161e5c1fa7425e73043362938b9824"
    );
    assert_eq!(
        calculate_hash(b""),
        "e3b0c44298fc1c149afbf4c8996fb92427ae41e4649b934ca495991b7852b855"
    );
}

#[test]
fn an_image_file_is_loaded() {
    let mut rgb = image::RgbImage::new(3, 2);
    rgb.put_pixel(1, 0, image::Rgb([10, 20, 30]));
    let image = load_image(&png_of(image::DynamicImage::ImageRgb8(rgb))).unwrap();
    assert_eq!((image.width(), image.height()), (3, 2));
    assert!(matches!(image.format(), PixelFormat::Rgb8));
    assert_eq!(image.get_sample(1, 0, 1), Some(20));
    assert_eq!(image.get_sample(0, 0, 0), Some(0));

    let mut gray = image::GrayImage::new(2, 2);
    gray.put_pixel(1, 1, image::Luma([77]));
    let image = load_image(&png_of(image::DynamicImage::ImageLuma8(gray))).unwrap();
    assert!(matches!(image.format(), PixelFormat::Luma8));
    assert_eq!(image.samples(), &vec![0, 0, 0, 77]);

    let mut rgba = image::RgbaImage::new(1, 1);
    rgba.put_pixel(0, 0, image::Rgba([1, 2, 3, 4]));
    let image = load_image(&png_of(image::DynamicImage::ImageRgba8(rgba))).unwrap();
    assert!(matches!(image.format(), PixelFormat::Rgb8));
    assert_eq!(image.samples(), &vec![1, 2, 3]);
}

#[test]
fn bytes_that_are_no_image_are_refused() {
    match load_image(b"hello") {
        Err(CaptchaError::InvalidImage(reason)) => {
            assert!(reason.starts_with("Cannot decode image: "))
        }
        _ => panic!("expected an invalid image"),
    }
    assert!(matches!(load_image(b""), Err(CaptchaError::InvalidImage(_))));
    let mut truncated = white_png(8, 8);
    truncated.truncate(20);
    assert!(matches!(load_image(&truncated), Err(CaptchaError::InvalidImage(_))));
}

#[test]
fn a_large_image_is_loaded() {
    let large = png_of(image::DynamicImage::ImageLuma8(image::GrayImage::new(4096, 2049)));
    let image = load_image(&large).unwrap();
    assert_eq!((image.width(), image.height()), (4096, 2049));
    assert_eq!(image.samples().len(), 4096 * 2049);
}

#[test]
fn a_request_is_processed() {
    let encoded = base64::engine::general_purpose::STANDARD.encode(white_png(100, 50));
    let request = SolveRequest {
        image_base64: format!("data:image/png;base64,{}", encoded),
        model: Some("ocr".to_string()),
        preprocess: None,
    };
    let solved = process_single_image(&manager(), &request, &fixed_text).unwrap();
    assert_eq!(solved.text, "0YY");
    assert_eq!(solved.solver_name, "ocr");

    let by_default = SolveRequest { image_base64: encoded.clone(), model: None, preprocess: None };
    let solved = process_single_image(&manager(), &by_default, &fixed_text).unwrap();
    assert_eq!(solved.solver_name, "cnn");

    let resized = SolveRequest {
        image_base64: encoded.clone(),
        model: Some("ocr".to_string()),
        preprocess: Some(PreprocessOptions {
            grayscale: None,
            threshold: None,
            denoise: None,
            resize_width: Some(26),
            resize_height: Some(5),
        }),
    };
    assert_eq!(process_single_image(&manager(), &resized, &fixed_text).unwrap().text, "1TYY");

    let unknown =
        SolveRequest { image_base64: encoded, model: Some("rnn".to_string()), preprocess: None };
    assert!(matches!(
        process_single_image(&manager(), &unknown, &fixed_text),
        Err(CaptchaError::ModelNotFound(_))
    ));
    let broken =
        SolveRequest { image_base64: "%%%".to_string(), model: None, preprocess: None };
    assert!(matches!(
        process_single_image(&manager(), &broken, &fixed_text),
        Err(CaptchaError::InvalidImage(_))
    ));
    let no_image =
        SolveRequest { image_base64: "aGVsbG8=".to_string(), model: None, preprocess: None };
    assert!(matches!(
        process_single_image(&manager(), &no_image, &fixed_text),
        Err(CaptchaError::InvalidImage(_))
    ));
}

#[test]
fn a_batch_has_a_limit() {
    assert!(check_batch_size(0, 10).is_ok());
    assert!(check_batch_size(10, 10).is_ok());
    match check_batch_size(11, 10) {
        Err(CaptchaError::BadRequest(reason)) => {
            assert_eq!(reason, "Batch size exceeds limit of 10")
        }
        _ => panic!("expected a bad request"),
    }
    assert!(check_batch_size(1, 0).is_err());
    let batch = BatchSolveRequest { images: Vec::new() };
    assert!(check_batch_size(batch.images.len(), 0).is_ok());
}

#[test]
fn a_batch_entry_tells_success_from_failure() {
    let solved = SolveResult {
        text: "AB".to_string(),
        confidence: 850_000,
        solver_name: "ocr".to_string(),
    };
    let entry = batch_result(3, Ok(solved));
    assert_eq!(entry.index, 3);
    assert!(entry.success);
    assert_eq!(entry.result.unwrap().text, "AB");
    assert!(entry.error.is_none());
    let entry = batch_result(4, Err(CaptchaError::ModelNotFound("rnn".to_string())));
    assert_eq!(entry.index, 4);
    assert!(!entry.success);
    assert!(entry.result.is_none());
    assert_eq!(entry.error.unwrap(), "Model not found: rnn");
}

#[test]
fn health_of_the_parts() {
    let database = database_status(Ok(()));
    assert_eq!(database.status, "healthy");
    assert!(database.message.is_none());
    let database = database_status(Err("refused".to_string()));
    assert_eq!(database.status, "unhealthy");
    assert_eq!(database.message.unwrap(), "refused");
    let solvers = solver_status(2);
    assert_eq!(solvers.status, "healthy");
    assert_eq!(solvers.message.unwrap(), "2 models loaded");
    assert_eq!(solver_status(12).message.unwrap(), "12 models loaded");
    let solvers = solver_status(0);
    assert_eq!(solvers.status, "degraded");
    assert_eq!(solvers.message.unwrap(), "No models loaded");
}

#[test]
fn health_of_the_whole() {
    assert_eq!(overall_status(&status("healthy"), &status("healthy")), "healthy");
    assert_eq!(overall_status(&status("healthy"), &status("degraded")), "healthy");
    assert_eq!(overall_status(&status("healthy"), &status("unhealthy")), "degraded");
    assert_eq!(overall_status(&status("unhealthy"), &status("healthy")), "unhealthy");
    assert_eq!(overall_status(&status("unhealthy"), &status("unhealthy")), "unhealthy");
    assert_eq!(overall_status(&status("other"), &status("healthy")), "degraded");
    assert_eq!(health_http_status("healthy"), 200);
    assert_eq!(health_http_status("degraded"), 200);
    assert_eq!(health_http_status("unhealthy"), 503);
    let response = health_check(Ok(()), 0, "0.1.0", "2024-01-01T00:00:00+00:00");
    assert_eq!(response.status, "healthy");
    assert_eq!(response.service, "captcha");
    assert_eq!(response.version, "0.1.0");
    assert_eq!(response.time, "2024-01-01T00:00:00+00:00");
    assert_eq!(response.checks.solvers.status, "degraded");
    let response = health_check(Err("down".to_string()), 2, "0.1.0", "now");
    assert_eq!(response.status, "unhealthy");
    assert_eq!(response.checks.database.message.unwrap(), "down");
    assert!(ready_check(true, 1));
    assert!(!ready_check(true, 0));
    assert!(!ready_check(false, 1));
}

#[test]
fn queries_have_defaults() {
    let logs = LogsQuery { model_id: None, is_correct: None, limit: None, offset: None };
    assert_eq!((logs.page_limit(), logs.page_offset()), (50, 0));
    let logs = LogsQuery { model_id: None, is_correct: None, limit: Some(7), offset: Some(3) };
    assert_eq!((logs.page_limit(), logs.page_offset()), (7, 3));
    assert_eq!(ExportQuery { model_id: None, limit: None }.row_limit(), 1000);
    assert_eq!(ExportQuery { model_id: None, limit: Some(0) }.row_limit(), 0);
    let jobs = ListJobsQuery { status: None, limit: None, offset: None };
    assert_eq!((jobs.page_limit(), jobs.page_offset()), (20, 0));
    let jobs = ListJobsQuery { status: None, limit: Some(1), offset: Some(2) };
    assert_eq!((jobs.page_limit(), jobs.page_offset()), (1, 2));
    let series = TimeSeriesQuery { interval: None, days: None };
    assert_eq!(series.interval_or_default(), "day");
    assert_eq!(series.days_or_default(), 30);
    let series = TimeSeriesQuery { interval: Some("hour".to_string()), days: Some(2) };
    assert_eq!(series.interval_or_default(), "hour");
    assert_eq!(series.days_or_default(), 2);
    assert_eq!(default_epochs(), 100);
    assert_eq!(default_batch_size(), 32);
}

#[test]
fn a_prediction_is_judged_by_the_actual_text() {
    let some = |text: &str| Some(text.to_string());
    assert_eq!(judge_prediction(&some("AB"), &some("AB")), Some(true));
    assert_eq!(judge_prediction(&some("AB"), &some("ab")), Some(false));
    assert_eq!(judge_prediction(&some("AB"), &None), Some(false));
    assert_eq!(judge_prediction(&None, &some("AB")), None);
    assert_eq!(judge_prediction(&None, &None), None);
}

#[test]
fn logs_are_exported_as_csv() {
    let header = "id,image_hash,predicted_text,actual_text,is_correct,confidence,processing_time_ms,model_id,created_at\n";
    assert_eq!(export_csv(&Vec::new()), header);
    let rows = vec![
        ExportRow {
            id: 1,
            image_hash: "abc".to_string(),
            predicted_text: Some("AB".to_string()),
            actual_text: Some("AC".to_string()),
            is_correct: Some(false),
            confidence: Some("0.85".to_string()),
            processing_time_ms: 12,
            model_id: Some(3),
            created_at: "2024-01-01T00:00:00+00:00".to_string(),
        },
        ExportRow {
            id: 20,
            image_hash: "def".to_string(),
            predicted_text: None,
            actual_text: None,
            is_correct: None,
            confidence: None,
            processing_time_ms: 0,
            model_id: None,
            created_at: "t".to_string(),
        },
        ExportRow {
            id: 3,
            image_hash: "".to_string(),
            predicted_text: None,
            actual_text: None,
            is_correct: Some(true),
            confidence: None,
            processing_time_ms: 4000000000,
            model_id: Some(u64::MAX),
            created_at: "".to_string(),
        },
    ];
    let expected = format!(
        "{}{}{}{}",
        header,
        "1,abc,AB,AC,false,0.85,12,3,2024-01-01T00:00:00+00:00\n",
        "20,def,,,,,0,,t\n",
        "3,,,,true,,4000000000,18446744073709551615,\n"
    );
    assert_eq!(export_csv(&rows), expected);
}

#[test]
fn models_need_a_name_and_a_known_kind() {
    for kind in ["ocr", "cnn", "rnn", "transformer", "ensemble"] {
        assert!(check_model_type(kind));
    }
    for kind in ["", "OCR", "gan", "cnn "] {
        assert!(!check_model_type(kind));
    }
    let upload = |name: &str, kind: &str| UploadModelRequest {
        name: name.to_string(),
        model_type: kind.to_string(),
        version: None,
        description: None,
        model_data: None,
    };
    assert!(upload("m", "cnn").validate().is_ok());
    match upload("", "cnn").validate() {
        Err(CaptchaError::BadRequest(reason)) => assert_eq!(reason, "Model name is required"),
        _ => panic!("expected a bad request"),
    }
    match upload("", "gan").validate() {
        Err(CaptchaError::BadRequest(reason)) => assert_eq!(reason, "Model name is required"),
        _ => panic!("expected a bad request"),
    }
    match upload("m", "gan").validate() {
        Err(CaptchaError::BadRequest(reason)) => assert_eq!(reason, "Invalid model type"),
        _ => panic!("expected a bad request"),
    }
    assert_eq!(upload("m", "cnn").version_or_default(), "1.0.0");
    let mut versioned = upload("m", "cnn");
    versioned.version = Some("2.1".to_string());
    assert_eq!(versioned.version_or_default(), "2.1");
    assert_eq!(model_file_path("/app/models", "m"), "/app/models/m.onnx");
    assert!(check_default_candidate(true).is_ok());
    match check_default_candidate(false) {
        Err(CaptchaError::BadRequest(reason)) => {
            assert_eq!(reason, "Cannot set inactive model as default")
        }
        _ => panic!("expected a bad request"),
    }
}

#[test]
fn trainings_need_a_name_and_a_known_kind() {
    assert!(validate_training("job", "rnn").is_ok());
    match validate_training("", "rnn") {
        Err(CaptchaError::BadRequest(reason)) => assert_eq!(reason, "Job name is required"),
        _ => panic!("expected a bad request"),
    }
    match validate_training("job", "x") {
        Err(CaptchaError::BadRequest(reason)) => assert_eq!(reason, "Invalid model type"),
        _ => panic!("expected a bad request"),
    }
}

#[test]
fn only_the_owner_cancels_a_job_that_runs() {
    assert!(check_cancellable(Some(1), Some(1), "pending").is_ok());
    assert!(check_cancellable(Some(1), Some(1), "running").is_ok());
    assert!(check_cancellable(Some(1), None, "running").is_ok());
    assert!(check_cancellable(None, None, "pending").is_ok());
    match check_cancellable(Some(1), Some(2), "running") {
        Err(CaptchaError::BadRequest(reason)) => {
            assert_eq!(reason, "Not authorized to cancel this job")
        }
        _ => panic!("expected a bad request"),
    }
    assert!(check_cancellable(None, Some(2), "running").is_err());
    match check_cancellable(Some(1), Some(1), "completed") {
        Err(CaptchaError::BadRequest(reason)) => {
            assert_eq!(reason, "Cannot cancel job with status: completed")
        }
        _ => panic!("expected a bad request"),
    }
    match check_cancellable(Some(1), Some(2), "completed") {
        Err(CaptchaError::BadRequest(reason)) => {
            assert_eq!(reason, "Not authorized to cancel this job")
        }
        _ => panic!("expected a bad request"),
    }
}

#[test]
fn training_states_have_names() {
    assert_eq!(TrainingStatus::Pending.name(), "pending");
    assert_eq!(TrainingStatus::Running.name(), "running");
    assert_eq!(TrainingStatus::Completed.name(), "completed");
    assert_eq!(TrainingStatus::Failed.name(), "failed");
    assert_eq!(TrainingStatus::Cancelled.name(), "cancelled");
}

#[test]
fn errors_map_to_answers() {
    let cases: Vec<(CaptchaError, u16, &str, &str)> = vec![
        (CaptchaError::InvalidImage("bad".to_string()), 400, "invalid_image", "bad"),
        (
            CaptchaError::ImageTooLarge,
            400,
            "image_too_large",
            "Image exceeds maximum allowed size",
        ),
        (
            CaptchaError::ModelNotFound("rnn".to_string()),
            404,
            "model_not_found",
            "Model 'rnn' not found",
        ),
        (CaptchaError::ModelLoadError("x".to_string()), 500, "model_load_error", "x"),
        (CaptchaError::Timeout, 408, "timeout", "Processing timeout"),
        (CaptchaError::DatabaseError("d".to_string()), 500, "database_error", "d"),
        (CaptchaError::ProcessingError("p".to_string()), 500, "processing_error", "p"),
        (CaptchaError::BadRequest("b".to_string()), 400, "bad_request", "b"),
        (CaptchaError::Unauthorized, 401, "unauthorized", "Unauthorized"),
        (CaptchaError::NotFound("n".to_string()), 404, "not_found", "n"),
    ];
    for (error, status, code, message) in cases {
        assert_eq!(error.http_status(), status);
        assert_eq!(error.error_code(), code);
        assert_eq!(error.error_message(), message);
    }
}
