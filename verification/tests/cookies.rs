use base64::Engine;
use smes::captcha::{cookie_value, image_to_base64, parse_cookies, Captcha};
use smes::picture::{CaptchaImage, ColorKind, Samples};

fn black_rgb(width: u32, height: u32) -> CaptchaImage {
    CaptchaImage {
        width,
        height,
        color: ColorKind::Rgb8,
        samples: Samples::U8(vec![0; (width * height * 3) as usize]),
    }
}

fn png_of(image: &image::DynamicImage) -> Vec<u8> {
    let mut bytes: Vec<u8> = Vec::new();
    image.write_to(&mut std::io::Cursor::new(&mut bytes), image::ImageFormat::Png).unwrap();
    bytes
}
use smes::response::ParsedResponse;
use smes::SmesError;

#[test]
fn set_cookie_values_fill_a_jar() {
    let values = vec![
        b"SESSION_TTL=20241003172138; Max-Age=1800; Path=/; Secure".to_vec(),
        b"SMESSESSION=52631aca-0a20-4edc-bcce-3984f073a630; Path=/venturein/; HttpOnly".to_vec(),
    ];
    let jar = parse_cookies(&values).unwrap();
    assert_eq!(
        cookie_value(&jar, "SMESSESSION").as_deref(),
        Some("52631aca-0a20-4edc-bcce-3984f073a630")
    );
    assert_eq!(cookie_value(&jar, "SESSION_TTL").as_deref(), Some("20241003172138"));
    assert_eq!(cookie_value(&jar, "OTHER"), None);
}

#[test]
fn a_later_cookie_replaces_an_earlier_one_of_its_name() {
    let values = vec![b"A=1".to_vec(), b"B=2".to_vec(), b"A=3".to_vec()];
    let jar = parse_cookies(&values).unwrap();
    assert_eq!(cookie_value(&jar, "A").as_deref(), Some("3"));
    assert_eq!(cookie_value(&jar, "B").as_deref(), Some("2"));
}

#[test]
fn a_value_that_is_no_cookie_is_refused() {
    let values = vec![b"A=1".to_vec(), b"no equals sign".to_vec()];
    assert!(matches!(parse_cookies(&values), Err(SmesError::CookieParse(_))));
    assert!(parse_cookies(&vec![]).is_ok());
}

#[test]
fn a_response_gives_its_set_cookie_headers_in_order() {
    let headers = vec![
        ("content-type".to_string(), b"image/png".to_vec()),
        ("set-cookie".to_string(), b"A=1; Path=/".to_vec()),
        ("set-cookie".to_string(), b"B=2".to_vec()),
    ];
    let r = ParsedResponse::check(200, headers, Some("image/png".to_string()), vec![0x89, 0x50], None)
        .unwrap();
    assert_eq!(r.set_cookie_values(), vec![b"A=1; Path=/".to_vec(), b"B=2".to_vec()]);
    let jar = r.cookies().unwrap();
    assert_eq!(cookie_value(&jar, "A").as_deref(), Some("1"));
    assert_eq!(cookie_value(&jar, "B").as_deref(), Some("2"));
}

#[test]
fn an_image_is_encoded_as_base64_png() {
    let encoded = image_to_base64(&black_rgb(1, 1)).unwrap();
    assert!(encoded.starts_with("iVBORw0KGgo"));
    assert_eq!(encoded.len() % 4, 0);
}

#[test]
fn a_captcha_keeps_its_job_id_and_answer() {
    let image = black_rgb(2, 2);
    let jar = parse_cookies(&vec![b"SMESSESSION=x".to_vec()]).unwrap();
    let captcha = Captcha::new(image, jar);
    assert_eq!(captcha.image().width, 2);
    let submitted = captcha.submit("job-1");
    assert_eq!(submitted.nopecha_id(), "job-1");
    let solved = submitted.solve("160665".to_string());
    assert_eq!(solved.answer(), "160665");
    assert_eq!(cookie_value(solved.cookies(), "SMESSESSION").as_deref(), Some("x"));
}

fn png_bytes() -> Vec<u8> {
    let image = image::DynamicImage::new_rgb8(3, 2);
    let mut bytes: Vec<u8> = Vec::new();
    image
        .write_to(&mut std::io::Cursor::new(&mut bytes), image::ImageFormat::Png)
        .unwrap();
    bytes
}

#[test]
fn a_captcha_is_read_from_its_response() {
    let headers = vec![
        ("content-type".to_string(), b"image/png".to_vec()),
        (
            "set-cookie".to_string(),
            b"SMESSESSION=52631aca-0a20-4edc-bcce-3984f073a630; Path=/venturein/; HttpOnly".to_vec(),
        ),
    ];
    let r = ParsedResponse::check(200, headers, Some("image/png".to_string()), png_bytes(), None).unwrap();
    let captcha = Captcha::from_response(&r).unwrap();
    assert_eq!(captcha.image().width, 3);
    assert_eq!(
        cookie_value(captcha.cookies(), "SMESSESSION").as_deref(),
        Some("52631aca-0a20-4edc-bcce-3984f073a630")
    );
}

#[test]
fn a_captcha_response_that_is_no_image_is_an_image_error() {
    let r = ParsedResponse::check(200, vec![], Some("image/png".to_string()), vec![1, 2, 3], None).unwrap();
    assert!(matches!(Captcha::from_response(&r), Err(SmesError::Image(_))));
}

#[test]
fn a_captcha_response_with_a_bad_cookie_is_a_cookie_error() {
    let headers = vec![("set-cookie".to_string(), b"no cookie here".to_vec())];
    let r = ParsedResponse::check(200, headers, Some("image/png".to_string()), png_bytes(), None).unwrap();
    assert!(matches!(Captcha::from_response(&r), Err(SmesError::CookieParse(_))));
}

#[test]
fn a_cloned_captcha_keeps_its_cookies_and_job_id() {
    let jar = parse_cookies(&vec![b"A=1".to_vec()]).unwrap();
    let submitted = Captcha::new(black_rgb(1, 1), jar).submit("job");
    let copy = submitted.clone();
    assert_eq!(copy.nopecha_id(), "job");
    assert_eq!(cookie_value(copy.cookies(), "A").as_deref(), Some("1"));
}

#[test]
fn an_image_is_encoded_as_the_image_crate_encodes_it() {
    let original = image::DynamicImage::new_rgb8(4, 3);
    let expected = base64::engine::general_purpose::STANDARD.encode(png_of(&original));
    assert_eq!(image_to_base64(&black_rgb(4, 3)).unwrap(), expected);
}

#[test]
fn a_decoded_captcha_is_encoded_back_to_the_same_png() {
    for original in [
        image::DynamicImage::ImageLuma8(image::ImageBuffer::from_fn(5, 2, |x, y| image::Luma([(x * 40 + y) as u8]))),
        image::DynamicImage::ImageRgba8(image::ImageBuffer::from_fn(2, 3, |x, y| image::Rgba([x as u8, y as u8, 7, 200]))),
        image::DynamicImage::ImageLuma16(image::ImageBuffer::from_fn(3, 3, |x, y| image::Luma([(x * 1000 + y * 7 + 300) as u16]))),
        image::DynamicImage::ImageRgb16(image::ImageBuffer::from_fn(2, 2, |x, y| image::Rgb([x as u16 * 513, y as u16 * 257, 65535]))),
    ] {
        let png = png_of(&original);
        let r = ParsedResponse::check(200, vec![], Some("image/png".to_string()), png.clone(), None).unwrap();
        let captcha = Captcha::from_response(&r).unwrap();
        assert_eq!(captcha.image().width, original.width());
        let expected = base64::engine::general_purpose::STANDARD.encode(&png);
        assert_eq!(image_to_base64(captcha.image()).unwrap(), expected);
    }
}

#[test]
fn an_image_that_is_not_whole_is_refused() {
    let short = CaptchaImage { width: 2, height: 2, color: ColorKind::Rgb8, samples: Samples::U8(vec![0; 11]) };
    assert!(matches!(image_to_base64(&short), Err(SmesError::Invariant(_))));
    let mixed = CaptchaImage { width: 1, height: 1, color: ColorKind::L16, samples: Samples::U8(vec![0; 2]) };
    assert!(matches!(image_to_base64(&mixed), Err(SmesError::Invariant(_))));
    let other = CaptchaImage { width: 1, height: 1, color: ColorKind::Other, samples: Samples::U8(vec![]) };
    assert!(matches!(image_to_base64(&other), Err(SmesError::Invariant(_))));
}

#[test]
fn a_set_cookie_value_that_is_not_visible_ascii_is_a_to_str_error() {
    let values = vec![b"A=1".to_vec(), "B=\u{ac00}".as_bytes().to_vec()];
    assert!(matches!(
        parse_cookies(&values),
        Err(SmesError::Conversion(smes::error::ConversionError::ToStr(_)))
    ));
    let values = vec![b"A=\x01".to_vec()];
    assert!(matches!(parse_cookies(&values), Err(SmesError::InvalidHeaderValue(_))));
    let headers = vec![("set-cookie".to_string(), vec![b'A', b'=', 0xff])];
    let r = ParsedResponse::check(200, headers, Some("image/png".to_string()), png_bytes(), None).unwrap();
    assert!(matches!(
        Captcha::from_response(&r),
        Err(SmesError::Conversion(smes::error::ConversionError::ToStr(_)))
    ));
}
