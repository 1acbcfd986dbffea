use captcha_solver::error::CaptchaError;
use captcha_solver::models::PreprocessOptions;
use captcha_solver::raster::{PixelFormat, RasterImage, MAX_DIMENSION};
use captcha_solver::solvers::preprocessor::ImagePreprocessor;

fn create_test_image() -> RasterImage {
    let img = image::RgbImage::from_fn(100, 50, |x, y| {
        if x > 20 && x < 80 && y > 10 && y < 40 {
            image::Rgb([0, 0, 0])
        } else {
            image::Rgb([255, 255, 255])
        }
    });
    RasterImage::new(100, 50, PixelFormat::Rgb8, img.into_raw()).unwrap()
}

fn gray(width: u32, height: u32, samples: Vec<u8>) -> RasterImage {
    RasterImage::new(width, height, PixelFormat::Luma8, samples).unwrap()
}

fn no_options() -> PreprocessOptions {
    PreprocessOptions {
        grayscale: None,
        denoise: None,
        threshold: None,
        resize_width: None,
        resize_height: None,
    }
}

#[test]
fn test_preprocess_grayscale() {
    let image = create_test_image();
    let options = PreprocessOptions {
        grayscale: Some(true),
        denoise: None,
        threshold: None,
        resize_width: None,
        resize_height: None,
    };

    let result = ImagePreprocessor::preprocess(&image, &options).unwrap();
    assert!(matches!(result.format(), PixelFormat::Luma8));
}

#[test]
fn test_preprocess_resize() {
    let image = create_test_image();
    let options = PreprocessOptions {
        grayscale: Some(false),
        denoise: None,
        threshold: None,
        resize_width: Some(200),
        resize_height: Some(100),
    };

    let result = ImagePreprocessor::preprocess(&image, &options).unwrap();
    assert_eq!(result.width(), 200);
    assert_eq!(result.height(), 100);
}

#[test]
fn test_preprocess_threshold() {
    let image = create_test_image();
    let options = PreprocessOptions {
        grayscale: Some(true),
        denoise: None,
        threshold: Some(128),
        resize_width: None,
        resize_height: None,
    };

    let result = ImagePreprocessor::preprocess(&image, &options).unwrap();

    // Check that pixels are either 0 or 255
    assert!(matches!(result.format(), PixelFormat::Luma8));
    assert_eq!(result.samples().len(), 100 * 50);
    for value in result.samples().iter() {
        assert!(*value == 0 || *value == 255);
    }
}

#[test]
fn raster_image_checks_its_parts() {
    assert!(RasterImage::new(2, 2, PixelFormat::Luma8, vec![0; 4]).is_ok());
    assert!(RasterImage::new(2, 2, PixelFormat::Rgb8, vec![0; 12]).is_ok());
    assert!(RasterImage::new(0, 0, PixelFormat::Rgb8, vec![]).is_ok());
    assert!(matches!(
        RasterImage::new(2, 2, PixelFormat::Rgb8, vec![0; 4]),
        Err(CaptchaError::InvalidImage(_))
    ));
    assert!(matches!(
        RasterImage::new(MAX_DIMENSION + 1, 1, PixelFormat::Luma8, vec![]),
        Err(CaptchaError::ImageTooLarge)
    ));
    assert!(matches!(
        RasterImage::new(0, MAX_DIMENSION + 1, PixelFormat::Luma8, vec![]),
        Err(CaptchaError::ImageTooLarge)
    ));
    assert!(RasterImage::new(MAX_DIMENSION, 0, PixelFormat::Rgb8, vec![]).is_ok());
    assert!(matches!(
        RasterImage::new(MAX_DIMENSION, 1, PixelFormat::Luma8, vec![]),
        Err(CaptchaError::InvalidImage(_))
    ));
    // Nine megapixels are an image like any other.
    let large = RasterImage::new(3000, 3000, PixelFormat::Luma8, vec![7; 9_000_000]).unwrap();
    assert_eq!((large.width(), large.height()), (3000, 3000));
    assert_eq!(large.get_sample(2999, 2999, 0), Some(7));
}

#[test]
fn raster_image_gives_its_samples() {
    let image = RasterImage::new(2, 2, PixelFormat::Rgb8, (0u8..12).collect()).unwrap();
    assert_eq!(image.get_sample(0, 0, 0), Some(0));
    assert_eq!(image.get_sample(1, 0, 2), Some(5));
    assert_eq!(image.get_sample(0, 1, 1), Some(7));
    assert_eq!(image.get_sample(1, 1, 2), Some(11));
    assert_eq!(image.get_sample(2, 0, 0), None);
    assert_eq!(image.get_sample(0, 2, 0), None);
    assert_eq!(image.get_sample(0, 0, 3), None);
    assert!(!image.is_empty());
    assert_eq!(image.clone().into_raw(), (0u8..12).collect::<Vec<u8>>());
}

#[test]
fn luma_weighs_the_colours() {
    let image = RasterImage::new(
        4,
        1,
        PixelFormat::Rgb8,
        vec![255, 0, 0, 0, 255, 0, 0, 0, 255, 10, 20, 30],
    )
    .unwrap();
    let gray = image.to_luma8();
    assert!(matches!(gray.format(), PixelFormat::Luma8));
    // 2126 * 255 / 10000, 7152 * 255 / 10000, 722 * 255 / 10000,
    // (21260 + 143040 + 21660) / 10000
    assert_eq!(gray.samples(), &vec![54, 182, 18, 18]);
}

#[test]
fn luma_of_a_gray_image_is_the_image() {
    let image = gray(3, 1, vec![1, 128, 255]);
    assert_eq!(image.to_luma8().samples(), &vec![1, 128, 255]);
}

#[test]
fn threshold_cuts_above_the_value() {
    let image = gray(4, 1, vec![0, 127, 128, 255]);
    let cut = ImagePreprocessor::apply_threshold(&image, 127).unwrap();
    assert_eq!(cut.samples(), &vec![0, 0, 255, 255]);
    let top = ImagePreprocessor::apply_threshold(&image, 255).unwrap();
    assert_eq!(top.samples(), &vec![0, 0, 0, 0]);
    let bottom = ImagePreprocessor::apply_threshold(&image, 0).unwrap();
    assert_eq!(bottom.samples(), &vec![0, 255, 255, 255]);
}

#[test]
fn threshold_twice_is_threshold_once() {
    let image = create_test_image();
    for cut in [0u8, 1, 54, 127, 128, 200, 254, 255] {
        let once = ImagePreprocessor::apply_threshold(&image, cut).unwrap();
        let twice = ImagePreprocessor::apply_threshold(&once, cut).unwrap();
        assert_eq!(once.samples(), twice.samples());
        assert_eq!(once.width(), twice.width());
        assert_eq!(once.height(), twice.height());
    }
    let ramp = gray(256, 1, (0..=255u8).collect());
    for cut in [0u8, 100, 255] {
        let once = ImagePreprocessor::apply_threshold(&ramp, cut).unwrap();
        let twice = ImagePreprocessor::apply_threshold(&once, cut).unwrap();
        assert_eq!(once.samples(), twice.samples());
    }
}

#[test]
fn resize_gives_the_exact_size() {
    let image = create_test_image();
    for (w, h) in [(1u32, 1u32), (7, 3), (200, 50), (100, 50), (0, 5), (5, 0), (0, 0)] {
        let options = PreprocessOptions {
            grayscale: None,
            denoise: Some(true),
            threshold: Some(100),
            resize_width: Some(w),
            resize_height: Some(h),
        };
        let result = ImagePreprocessor::preprocess(&image, &options).unwrap();
        assert_eq!(result.width(), w);
        assert_eq!(result.height(), h);
        assert_eq!(result.samples().len(), (w * h) as usize);
    }
    let empty = RasterImage::new(0, 0, PixelFormat::Rgb8, vec![]).unwrap();
    let stretched = empty.resize_exact(4, 3).unwrap();
    assert_eq!((stretched.width(), stretched.height()), (4, 3));
    assert_eq!(stretched.samples().len(), 36);
}

#[test]
fn resize_needs_both_dimensions() {
    let image = create_test_image();
    let options = PreprocessOptions {
        grayscale: Some(false),
        denoise: None,
        threshold: None,
        resize_width: Some(10),
        resize_height: None,
    };
    let result = ImagePreprocessor::preprocess(&image, &options).unwrap();
    assert_eq!((result.width(), result.height()), (100, 50));
    assert!(matches!(result.format(), PixelFormat::Rgb8));
    assert_eq!(result.samples(), image.samples());
}

#[test]
fn resize_gives_a_large_size() {
    let image = create_test_image();
    let options = PreprocessOptions {
        grayscale: None,
        denoise: None,
        threshold: Some(128),
        resize_width: Some(4000),
        resize_height: Some(3000),
    };
    let result = ImagePreprocessor::preprocess(&image, &options).unwrap();
    assert_eq!((result.width(), result.height()), (4000, 3000));
    assert!(matches!(result.format(), PixelFormat::Luma8));
    assert_eq!(result.samples().len(), 12_000_000);
    assert_eq!(result.get_sample(0, 0, 0), Some(255));
    assert_eq!(result.get_sample(2000, 1500, 0), Some(0));
}

#[test]
fn resize_to_too_long_a_side_is_refused() {
    let image = create_test_image();
    let options = PreprocessOptions {
        grayscale: None,
        denoise: None,
        threshold: None,
        resize_width: Some(MAX_DIMENSION + 1),
        resize_height: Some(1),
    };
    assert!(matches!(
        ImagePreprocessor::preprocess(&image, &options),
        Err(CaptchaError::ImageTooLarge)
    ));
    assert!(matches!(image.resize_exact(MAX_DIMENSION + 1, 0), Err(CaptchaError::ImageTooLarge)));
    assert!(matches!(image.resize_exact(0, u32::MAX), Err(CaptchaError::ImageTooLarge)));
    let flat = image.resize_exact(MAX_DIMENSION, 0).unwrap();
    assert_eq!((flat.width(), flat.height()), (MAX_DIMENSION, 0));
    assert!(flat.is_empty());
}

#[test]
fn resize_resamples() {
    let image = gray(2, 1, vec![0, 255]);
    let wide = image.resize_exact(4, 1).unwrap();
    assert_eq!(wide.samples().len(), 4);
    assert_eq!(wide.samples()[0], 0);
    assert_eq!(wide.samples()[3], 255);
    let same = image.resize_exact(2, 1).unwrap();
    assert_eq!(same.samples(), &vec![0, 255]);
}

#[test]
fn preprocess_defaults_to_grayscale_only() {
    let image = create_test_image();
    let result = ImagePreprocessor::preprocess(&image, &no_options()).unwrap();
    assert!(matches!(result.format(), PixelFormat::Luma8));
    assert_eq!(result.samples(), image.to_luma8().samples());
    let same = ImagePreprocessor::preprocess(&image, &PreprocessOptions::default()).unwrap();
    assert_eq!(same.samples(), result.samples());
}

#[test]
fn denoise_spreads_a_point() {
    let mut samples = vec![0u8; 49];
    samples[24] = 255;
    let image = gray(7, 7, samples.clone());
    let blurred = ImagePreprocessor::denoise(&image).unwrap();
    assert_eq!((blurred.width(), blurred.height()), (7, 7));
    assert_ne!(blurred.samples(), &samples);
    assert!(blurred.samples()[24] < 255);
    assert!(blurred.samples()[23] > 0);
    assert!(blurred.samples()[17] > 0);
    assert_eq!(blurred.samples()[23], blurred.samples()[25]);
    assert_eq!(blurred.samples()[17], blurred.samples()[31]);
    let flat = gray(5, 4, vec![0; 20]);
    assert_eq!(ImagePreprocessor::denoise(&flat).unwrap().samples(), &vec![0; 20]);
}

#[test]
fn preprocess_keeps_the_order_of_its_steps() {
    let mut samples = vec![0u8; 49];
    samples[24] = 255;
    let image = gray(7, 7, samples);
    let options = PreprocessOptions {
        grayscale: Some(true),
        denoise: Some(true),
        threshold: Some(10),
        resize_width: None,
        resize_height: None,
    };
    let result = ImagePreprocessor::preprocess(&image, &options).unwrap();
    let by_hand = ImagePreprocessor::apply_threshold(
        &ImagePreprocessor::denoise(&image).unwrap(),
        10,
    )
    .unwrap();
    assert_eq!(result.samples(), by_hand.samples());
    // Blur before threshold: the point has spread to its neighbours.
    assert_eq!(result.samples()[23], 255);
    assert_eq!(result.samples()[0], 0);
}

#[test]
fn adaptive_threshold_compares_with_the_neighbourhood() {
    let image = gray(3, 3, vec![10, 10, 10, 10, 200, 10, 10, 10, 10]);
    let result = ImagePreprocessor::adaptive_threshold(&image, 1).unwrap();
    assert_eq!(result.samples(), &vec![0, 0, 0, 0, 255, 0, 0, 0, 0]);
    let flat = gray(2, 2, vec![7; 4]);
    let result = ImagePreprocessor::adaptive_threshold(&flat, 3).unwrap();
    assert_eq!(result.samples(), &vec![255; 4]);
}

#[test]
fn adaptive_threshold_refuses_a_bad_radius() {
    let image = gray(2, 2, vec![7; 4]);
    assert!(matches!(
        ImagePreprocessor::adaptive_threshold(&image, 0),
        Err(CaptchaError::BadRequest(_))
    ));
    assert!(matches!(
        ImagePreprocessor::adaptive_threshold(&image, 0x8000_0000),
        Err(CaptchaError::BadRequest(_))
    ));
    assert!(ImagePreprocessor::adaptive_threshold(&image, 0x7fff_ffff).is_ok());
}

#[test]
fn adaptive_threshold_has_a_pixel_limit() {
    let most = gray(8_421_504, 1, vec![9; 8_421_504]);
    let result = ImagePreprocessor::adaptive_threshold(&most, 2).unwrap();
    assert_eq!(result.samples().len(), 8_421_504);
    assert_eq!(result.samples()[0], 255);
    let more = gray(8_421_505, 1, vec![9; 8_421_505]);
    assert!(matches!(
        ImagePreprocessor::adaptive_threshold(&more, 2),
        Err(CaptchaError::ImageTooLarge)
    ));
    // The radius is judged first.
    assert!(matches!(
        ImagePreprocessor::adaptive_threshold(&more, 0),
        Err(CaptchaError::BadRequest(_))
    ));
    let colours = RasterImage::new(2903, 2903, PixelFormat::Rgb8, vec![0; 2903 * 2903 * 3])
        .unwrap();
    assert!(matches!(
        ImagePreprocessor::adaptive_threshold(&colours, 1),
        Err(CaptchaError::ImageTooLarge)
    ));
}

#[test]
fn large_images_pass_through_the_other_steps() {
    // Above sixteen megapixels the sum of the intensities passes 32 bits.
    let mut samples = vec![255u8; 4200 * 4100];
    samples[0] = 0;
    let image = gray(4200, 4100, samples);
    let equalized = ImagePreprocessor::enhance_contrast(&image).unwrap();
    assert_eq!(equalized.get_sample(0, 0, 0), Some(0));
    assert_eq!(equalized.get_sample(1, 0, 0), Some(255));
    let cut = ImagePreprocessor::apply_threshold(&image, 100).unwrap();
    assert_eq!(cut.samples().len(), 4200 * 4100);
    let cleaned = ImagePreprocessor::remove_lines(&image).unwrap();
    assert_eq!(cleaned.get_sample(0, 0, 0), Some(0));
    let segments = ImagePreprocessor::segment_characters(&image).unwrap();
    assert_eq!(segments.len(), 0);
    let blurred = ImagePreprocessor::denoise(&image).unwrap();
    assert_eq!((blurred.width(), blurred.height()), (4200, 4100));
}

#[test]
fn median_removes_salt_and_pepper() {
    let image = gray(3, 3, vec![1, 2, 3, 200, 6, 7, 9, 100, 11]);
    let result = ImagePreprocessor::median_denoise(&image, 1).unwrap();
    assert_eq!(result.samples(), &vec![2, 3, 3, 9, 7, 7, 9, 11, 11]);
    let same = ImagePreprocessor::median_denoise(&image, 0).unwrap();
    assert_eq!(same.samples(), image.samples());
}

#[test]
fn median_refuses_a_large_radius() {
    let image = gray(1, 1, vec![9]);
    assert!(matches!(
        ImagePreprocessor::median_denoise(&image, 16_384),
        Err(CaptchaError::BadRequest(_))
    ));
    assert!(matches!(
        ImagePreprocessor::median_denoise(&image, u32::MAX),
        Err(CaptchaError::BadRequest(_))
    ));
}

#[test]
fn erosion_shrinks_and_dilation_grows() {
    let mut samples = vec![0u8; 25];
    for y in 1..4 {
        for x in 1..4 {
            samples[y * 5 + x] = 255;
        }
    }
    let image = gray(5, 5, samples.clone());
    let eroded = ImagePreprocessor::erode_image(&image, 1).unwrap();
    let mut centre = vec![0u8; 25];
    centre[12] = 255;
    assert_eq!(eroded.samples(), &centre);
    let dilated = ImagePreprocessor::dilate_image(&image, 1).unwrap();
    assert_eq!(dilated.samples(), &vec![255u8; 25]);
    let unchanged = ImagePreprocessor::dilate_image(&image, 0).unwrap();
    assert_eq!(unchanged.samples(), &samples);
}

#[test]
fn remove_lines_erases_a_vertical_line() {
    // A dark column, one pixel wide, between light columns.
    let mut samples = vec![255u8; 25];
    for y in 0..5 {
        samples[y * 5 + 2] = 0;
    }
    let image = gray(5, 5, samples.clone());
    let result = ImagePreprocessor::remove_lines(&image).unwrap();
    let mut expected = samples.clone();
    for y in 1..4 {
        expected[y * 5 + 2] = 255;
    }
    assert_eq!(result.samples(), &expected);
}

#[test]
fn remove_lines_keeps_a_stroke() {
    // A dark row, one pixel high: light above and below, dark left and right.
    let mut samples = vec![255u8; 25];
    for x in 0..5 {
        samples[2 * 5 + x] = 0;
    }
    let image = gray(5, 5, samples.clone());
    let result = ImagePreprocessor::remove_lines(&image).unwrap();
    assert_eq!(result.samples(), &samples);
}

#[test]
fn remove_lines_erases_isolated_noise() {
    let mut samples = vec![255u8; 25];
    samples[12] = 0;
    let image = gray(5, 5, samples);
    let result = ImagePreprocessor::remove_lines(&image).unwrap();
    assert_eq!(result.samples(), &vec![255u8; 25]);

    // Two dark pixels side by side: each has one dark neighbour.
    let mut samples = vec![255u8; 25];
    samples[11] = 100;
    samples[12] = 127;
    let image = gray(5, 5, samples);
    let result = ImagePreprocessor::remove_lines(&image).unwrap();
    assert_eq!(result.samples(), &vec![255u8; 25]);

    // Three in a corner: the one in the middle has two dark neighbours.
    let mut samples = vec![255u8; 25];
    samples[6] = 100;
    samples[7] = 127;
    samples[12] = 0;
    let image = gray(5, 5, samples);
    let result = ImagePreprocessor::remove_lines(&image).unwrap();
    let mut expected = vec![255u8; 25];
    expected[7] = 127;
    assert_eq!(result.samples(), &expected);
}

#[test]
fn remove_lines_reads_the_input_only() {
    // A block of two by two dark pixels: each has two dark neighbours.
    let mut samples = vec![255u8; 16];
    for i in [5, 6, 9, 10] {
        samples[i] = 0;
    }
    let image = gray(4, 4, samples.clone());
    let result = ImagePreprocessor::remove_lines(&image).unwrap();
    assert_eq!(result.samples(), &samples);
}

#[test]
fn remove_lines_leaves_the_border() {
    let image = gray(3, 2, vec![0; 6]);
    assert_eq!(ImagePreprocessor::remove_lines(&image).unwrap().samples(), &vec![0; 6]);
    let lonely = gray(3, 3, vec![0, 255, 0, 255, 0, 255, 0, 255, 0]);
    assert_eq!(
        ImagePreprocessor::remove_lines(&lonely).unwrap().samples(),
        &vec![0, 255, 0, 255, 255, 255, 0, 255, 0]
    );
    let empty = gray(0, 0, vec![]);
    assert!(ImagePreprocessor::remove_lines(&empty).unwrap().is_empty());
    let gray_zone = gray(3, 3, vec![255, 255, 255, 255, 128, 255, 255, 255, 255]);
    assert_eq!(ImagePreprocessor::remove_lines(&gray_zone).unwrap().samples(), gray_zone.samples());
}

#[test]
fn enhance_contrast_equalizes_the_histogram() {
    let image = gray(4, 1, vec![10, 20, 20, 30]);
    let result = ImagePreprocessor::enhance_contrast(&image).unwrap();
    // Shares 1/4, 3/4, 3/4 and 4/4 of 255: 63.75, 191.25, 191.25 and 255.
    assert_eq!(result.samples(), &vec![64, 191, 191, 255]);
    let flat = gray(2, 2, vec![7; 4]);
    assert_eq!(ImagePreprocessor::enhance_contrast(&flat).unwrap().samples(), &vec![255; 4]);
    let halves = gray(2, 1, vec![0, 255]);
    // 127.5 rounds up.
    assert_eq!(ImagePreprocessor::enhance_contrast(&halves).unwrap().samples(), &vec![128, 255]);
    let empty = gray(0, 0, vec![]);
    assert!(ImagePreprocessor::enhance_contrast(&empty).unwrap().is_empty());
}

fn profile_image(ink: &[bool]) -> RasterImage {
    let samples = ink.iter().map(|dark| if *dark { 0u8 } else { 255u8 }).collect();
    gray(ink.len() as u32, 1, samples)
}

#[test]
fn segmentation_drops_a_run_of_three() {
    let image = profile_image(&[false, false, true, true, true, false, false, false]);
    let segments = ImagePreprocessor::segment_characters(&image).unwrap();
    assert_eq!(segments.len(), 0);
}

#[test]
fn segmentation_keeps_a_run_of_five() {
    let image = profile_image(&[false, false, true, true, true, true, true, false, false]);
    let segments = ImagePreprocessor::segment_characters(&image).unwrap();
    assert_eq!(segments.len(), 1);
    assert_eq!((segments[0].width(), segments[0].height()), (5, 1));
    assert_eq!(segments[0].samples(), &vec![0u8; 5]);
}

#[test]
fn segmentation_keeps_a_run_of_four() {
    let image = profile_image(&[true, true, true, true, false]);
    let segments = ImagePreprocessor::segment_characters(&image).unwrap();
    assert_eq!(segments.len(), 1);
    assert_eq!(segments[0].width(), 4);
}

#[test]
fn segmentation_emits_the_run_at_the_last_column() {
    let image = profile_image(&[false, true, true, true, true, true, false, false, true]);
    let segments = ImagePreprocessor::segment_characters(&image).unwrap();
    assert_eq!(segments.len(), 2);
    assert_eq!(segments[0].width(), 5);
    assert_eq!(segments[1].width(), 1);
}

#[test]
fn segmentation_cuts_the_input_left_to_right() {
    // Two characters in an RGB image of two rows.
    let width = 12u32;
    let mut samples = vec![255u8; (width * 2 * 3) as usize];
    let mut darken = |x: u32, y: u32, value: u8| {
        let at = ((y * width + x) * 3) as usize;
        samples[at] = value;
        samples[at + 1] = value;
        samples[at + 2] = value;
    };
    for x in 1..5 {
        darken(x, 0, x as u8);
    }
    for x in 6..11 {
        darken(x, 1, 10 * x as u8);
    }
    let image = RasterImage::new(width, 2, PixelFormat::Rgb8, samples).unwrap();
    let segments = ImagePreprocessor::segment_characters(&image).unwrap();
    assert_eq!(segments.len(), 2);
    assert!(matches!(segments[0].format(), PixelFormat::Rgb8));
    assert_eq!((segments[0].width(), segments[0].height()), (4, 2));
    assert_eq!((segments[1].width(), segments[1].height()), (5, 2));
    assert_eq!(segments[0].get_sample(0, 0, 0), Some(1));
    assert_eq!(segments[0].get_sample(3, 0, 2), Some(4));
    assert_eq!(segments[0].get_sample(0, 1, 0), Some(255));
    assert_eq!(segments[1].get_sample(0, 1, 1), Some(60));
    assert_eq!(segments[1].get_sample(4, 1, 1), Some(100));
    assert_eq!(segments[1].get_sample(4, 0, 1), Some(255));
}

#[test]
fn segmentation_of_blank_and_empty_images() {
    let blank = profile_image(&[false; 9]);
    assert_eq!(ImagePreprocessor::segment_characters(&blank).unwrap().len(), 0);
    let empty = gray(0, 0, vec![]);
    assert_eq!(ImagePreprocessor::segment_characters(&empty).unwrap().len(), 0);
    let full = profile_image(&[true; 2]);
    let segments = ImagePreprocessor::segment_characters(&full).unwrap();
    assert_eq!(segments.len(), 1);
    assert_eq!(segments[0].width(), 2);
}

#[test]
fn crop_is_cut_down_to_the_image() {
    let image = gray(3, 2, vec![1, 2, 3, 4, 5, 6]);
    assert_eq!(image.crop_imm(1, 0, 2, 2).samples(), &vec![2, 3, 5, 6]);
    assert_eq!(image.crop_imm(2, 1, 5, 5).samples(), &vec![6]);
    let outside = image.crop_imm(7, 7, 1, 1);
    assert_eq!((outside.width(), outside.height()), (0, 0));
    assert_eq!(image.crop_imm(0, 0, 3, 2).samples(), image.samples());
}

#[test]
fn full_pipeline_gives_a_binary_image() {
    let image = create_test_image();
    let result = ImagePreprocessor::full_pipeline(&image).unwrap();
    assert!(matches!(result.format(), PixelFormat::Luma8));
    assert_eq!((result.width(), result.height()), (100, 50));
    let options = PreprocessOptions {
        grayscale: Some(true),
        denoise: Some(true),
        threshold: Some(128),
        resize_width: None,
        resize_height: None,
    };
    let first = ImagePreprocessor::preprocess(&image, &options).unwrap();
    let second = ImagePreprocessor::enhance_contrast(&first).unwrap();
    let third = ImagePreprocessor::remove_lines(&second).unwrap();
    assert_eq!(result.samples(), third.samples());
}
