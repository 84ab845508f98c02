use antbee::features::chw_from_rgb;
use antbee::features::decode;
use antbee::features::jpg_to_chw;
use antbee::features::to_chw;
use antbee::features::FeatureError;
use antbee::features::FeatureVector;
use antbee::features::Raster;
use antbee::features::CHANNELS;
use antbee::features::INPUT_DIM;
use antbee::features::MAX_LEVEL;
use antbee::features::PLANE;
use antbee::features::SIDE;

fn flat(width: u32, height: u32, rgb: [u8; 3]) -> Raster {
    let mut pixels = Vec::new();
    for _ in 0..(width as usize * height as usize) {
        pixels.extend_from_slice(&rgb);
    }
    Raster::new(width, height, pixels).unwrap()
}

#[test]
fn dimensions_multiply_out() {
    assert_eq!(SIDE, 28);
    assert_eq!(CHANNELS, 3);
    assert_eq!(PLANE, 28 * 28);
    assert_eq!(INPUT_DIM, 3 * 28 * 28);
    assert_eq!(INPUT_DIM, 2352);
    assert_eq!(MAX_LEVEL, 255);
}

#[test]
fn raster_keeps_size_and_samples() {
    let raster = Raster::new(2, 3, (0..18).collect()).unwrap();
    assert_eq!(raster.width(), 2);
    assert_eq!(raster.height(), 3);
    assert_eq!(raster.pixels(), &(0..18).collect::<Vec<u8>>());
}

#[test]
fn raster_refuses_wrong_sample_count() {
    assert!(Raster::new(2, 3, vec![0; 17]).is_none());
    assert!(Raster::new(2, 3, vec![0; 19]).is_none());
    assert!(Raster::new(2, 3, vec![]).is_none());
    assert!(Raster::new(0, 3, vec![0; 1]).is_none());
    assert!(Raster::new(u32::MAX, u32::MAX, vec![0; 3]).is_none());
}

#[test]
fn raster_may_be_empty() {
    assert!(Raster::new(0, 0, vec![]).is_some());
    assert!(Raster::new(0, 7, vec![]).is_some());
    assert!(Raster::new(7, 0, vec![]).is_some());
}

#[test]
fn feature_vector_needs_exact_length() {
    assert!(FeatureVector::from_levels(vec![0; INPUT_DIM - 1]).is_none());
    assert!(FeatureVector::from_levels(vec![0; INPUT_DIM + 1]).is_none());
    assert!(FeatureVector::from_levels(vec![]).is_none());
    let levels: Vec<u8> = (0..INPUT_DIM).map(|k| (k % 251) as u8).collect();
    let features = FeatureVector::from_levels(levels.clone()).unwrap();
    assert_eq!(features.levels(), &levels);
}

#[test]
fn chw_puts_channels_in_planes() {
    let mut rgb = Vec::new();
    for pixel in 0..PLANE {
        rgb.push((pixel % 200) as u8);
        rgb.push((pixel % 200) as u8 + 1);
        rgb.push((pixel % 200) as u8 + 2);
    }
    let features = chw_from_rgb(&rgb).unwrap();
    let levels = features.levels();
    assert_eq!(levels.len(), 2352);
    for pixel in 0..PLANE {
        assert_eq!(levels[pixel], (pixel % 200) as u8);
        assert_eq!(levels[PLANE + pixel], (pixel % 200) as u8 + 1);
        assert_eq!(levels[2 * PLANE + pixel], (pixel % 200) as u8 + 2);
    }
}

#[test]
fn chw_first_places() {
    let mut rgb = vec![0u8; INPUT_DIM];
    rgb[0] = 7;
    rgb[1] = 8;
    rgb[2] = 9;
    rgb[3] = 10;
    rgb[2351] = 11;
    let features = chw_from_rgb(&rgb).unwrap();
    let levels = features.levels();
    assert_eq!(levels[0], 7);
    assert_eq!(levels[784], 8);
    assert_eq!(levels[1568], 9);
    assert_eq!(levels[1], 10);
    assert_eq!(levels[2351], 11);
}

#[test]
fn chw_refuses_other_lengths() {
    assert!(chw_from_rgb(&vec![]).is_none());
    assert!(chw_from_rgb(&vec![0; 2351]).is_none());
    assert!(chw_from_rgb(&vec![0; 2353]).is_none());
    assert!(chw_from_rgb(&vec![0; 3]).is_none());
}

#[test]
fn picture_of_target_size_keeps_its_samples() {
    let pixels: Vec<u8> = (0..INPUT_DIM).map(|k| (k * 7 % 256) as u8).collect();
    let raster = Raster::new(28, 28, pixels.clone()).unwrap();
    let features = to_chw(&raster).ok().unwrap();
    let levels = features.levels();
    assert_eq!(levels.len(), INPUT_DIM);
    for pixel in 0..PLANE {
        for channel in 0..CHANNELS {
            assert_eq!(levels[channel * PLANE + pixel], pixels[3 * pixel + channel]);
        }
    }
}

#[test]
fn larger_picture_is_resampled_to_input_dim() {
    let raster = flat(50, 40, [10, 20, 30]);
    assert_eq!(raster.pixels().len(), 6000);
    let features = to_chw(&raster).ok().unwrap();
    let levels = features.levels();
    assert_eq!(levels.len(), 2352);
    assert!(levels[..PLANE].iter().all(|&l| l == 10));
    assert!(levels[PLANE..2 * PLANE].iter().all(|&l| l == 20));
    assert!(levels[2 * PLANE..].iter().all(|&l| l == 30));
}

#[test]
fn smaller_picture_is_resampled_to_input_dim() {
    let raster = flat(3, 5, [255, 0, 128]);
    let features = to_chw(&raster).ok().unwrap();
    let levels = features.levels();
    assert_eq!(levels.len(), 2352);
    assert!(levels[..PLANE].iter().all(|&l| l == 255));
    assert!(levels[PLANE..2 * PLANE].iter().all(|&l| l == 0));
    assert!(levels[2 * PLANE..].iter().all(|&l| l == 128));
}

#[test]
fn resampling_keeps_left_and_right_apart() {
    let mut pixels = Vec::new();
    for _row in 0..56 {
        for column in 0..56 {
            let level = if column < 28 { 0 } else { 255 };
            pixels.extend_from_slice(&[level, level, level]);
        }
    }
    let raster = Raster::new(56, 56, pixels).unwrap();
    let features = to_chw(&raster).ok().unwrap();
    let levels = features.levels();
    for row in 0..28 {
        assert!(levels[row * 28] < 64);
        assert!(levels[row * 28 + 27] > 192);
    }
}

#[test]
fn empty_picture_gives_dark_features() {
    let raster = Raster::new(0, 0, vec![]).unwrap();
    let features = to_chw(&raster).ok().unwrap();
    assert_eq!(features.levels(), &vec![0u8; 2352]);
}

#[test]
fn features_lie_in_unit_interval() {
    let pixels: Vec<u8> = (0..(31 * 17 * 3)).map(|k| (k * 37 % 256) as u8).collect();
    let raster = Raster::new(31, 17, pixels).unwrap();
    let features = to_chw(&raster).ok().unwrap();
    for &level in features.levels() {
        let feature = level as f32 / MAX_LEVEL as f32;
        assert!((0.0..=1.0).contains(&feature));
    }
    assert_eq!(0u8 as f32 / MAX_LEVEL as f32, 0.0);
    assert_eq!(255u8 as f32 / MAX_LEVEL as f32, 1.0);
}

fn encoded(width: u32, height: u32, pixels: Vec<u8>, format: image::ImageFormat) -> Vec<u8> {
    let picture = image::RgbImage::from_raw(width, height, pixels).unwrap();
    let mut bytes = std::io::Cursor::new(Vec::new());
    picture.write_to(&mut bytes, format).unwrap();
    bytes.into_inner()
}

#[test]
fn decode_reads_a_png() {
    let pixels: Vec<u8> = (0..(5 * 4 * 3)).map(|k| (k * 4) as u8).collect();
    let bytes = encoded(5, 4, pixels.clone(), image::ImageFormat::Png);
    assert_ne!(bytes, pixels);
    let raster = decode(&bytes).ok().unwrap();
    assert_eq!(raster.width(), 5);
    assert_eq!(raster.height(), 4);
    assert_eq!(raster.pixels(), &pixels);
}

#[test]
fn decode_reads_a_jpeg() {
    let pixels: Vec<u8> = (0..(16 * 8)).flat_map(|_| [200u8, 100, 50]).collect();
    let bytes = encoded(16, 8, pixels, image::ImageFormat::Jpeg);
    let raster = decode(&bytes).ok().unwrap();
    assert_eq!(raster.width(), 16);
    assert_eq!(raster.height(), 8);
    assert_eq!(raster.pixels().len(), 16 * 8 * 3);
    for pixel in raster.pixels().chunks(3) {
        assert!(pixel[0].abs_diff(200) <= 4);
        assert!(pixel[1].abs_diff(100) <= 4);
        assert!(pixel[2].abs_diff(50) <= 4);
    }
}

#[test]
fn decode_spreads_gray_over_three_channels() {
    let gray = image::GrayImage::from_raw(2, 2, vec![0, 85, 170, 255]).unwrap();
    let mut bytes = std::io::Cursor::new(Vec::new());
    gray.write_to(&mut bytes, image::ImageFormat::Png).unwrap();
    let raster = decode(&bytes.into_inner()).ok().unwrap();
    assert_eq!(raster.pixels(), &vec![0, 0, 0, 85, 85, 85, 170, 170, 170, 255, 255, 255]);
}

#[test]
fn decode_refuses_what_is_no_picture() {
    assert_eq!(decode(&vec![]).err(), Some(FeatureError::Decode));
    assert_eq!(decode(&vec![1, 2, 3, 4, 5, 6, 7, 8]).err(), Some(FeatureError::Decode));
    assert_eq!(decode(&b"not a picture at all".to_vec()).err(), Some(FeatureError::Decode));
}

#[test]
fn decode_refuses_a_cut_off_file() {
    let pixels: Vec<u8> = (0..(20 * 20 * 3)).map(|k| (k % 256) as u8).collect();
    let mut bytes = encoded(20, 20, pixels, image::ImageFormat::Png);
    bytes.truncate(bytes.len() / 2);
    assert_eq!(decode(&bytes).err(), Some(FeatureError::Decode));
}

#[test]
fn file_of_target_size_gives_its_own_samples() {
    let pixels: Vec<u8> = (0..INPUT_DIM).map(|k| (k * 11 % 256) as u8).collect();
    let bytes = encoded(28, 28, pixels.clone(), image::ImageFormat::Png);
    let features = jpg_to_chw(&bytes).ok().unwrap();
    let levels = features.levels();
    assert_eq!(levels.len(), 2352);
    for pixel in 0..PLANE {
        for channel in 0..CHANNELS {
            assert_eq!(levels[channel * PLANE + pixel], pixels[3 * pixel + channel]);
        }
    }
}

#[test]
fn jpeg_file_gives_input_dim_levels() {
    let pixels: Vec<u8> = (0..(64 * 48)).flat_map(|_| [30u8, 60, 90]).collect();
    let bytes = encoded(64, 48, pixels, image::ImageFormat::Jpeg);
    let features = jpg_to_chw(&bytes).ok().unwrap();
    let levels = features.levels();
    assert_eq!(levels.len(), 2352);
    assert!(levels[..PLANE].iter().all(|&l| l.abs_diff(30) <= 4));
    assert!(levels[PLANE..2 * PLANE].iter().all(|&l| l.abs_diff(60) <= 4));
    assert!(levels[2 * PLANE..].iter().all(|&l| l.abs_diff(90) <= 4));
}

#[test]
fn file_that_is_no_picture_gives_no_features() {
    assert_eq!(jpg_to_chw(&vec![0xff, 0xd8, 0xff]).err(), Some(FeatureError::Decode));
    assert_eq!(jpg_to_chw(&vec![]).err(), Some(FeatureError::Decode));
}

#[test]
fn photograph_sized_picture_is_resampled() {
    let mut pixels = Vec::new();
    for row in 0..375u32 {
        for column in 0..500u32 {
            pixels.push((column * 255 / 499) as u8);
            pixels.push((row * 255 / 374) as u8);
            pixels.push(77);
        }
    }
    let raster = Raster::new(500, 375, pixels).unwrap();
    let features = to_chw(&raster).ok().unwrap();
    let levels = features.levels();
    assert_eq!(levels.len(), 2352);
    for row in 0..28 {
        for column in 1..28 {
            assert!(levels[row * 28 + column] >= levels[row * 28 + column - 1]);
        }
    }
    for row in 1..28 {
        for column in 0..28 {
            assert!(levels[PLANE + row * 28 + column] >= levels[PLANE + (row - 1) * 28 + column]);
        }
    }
    assert!(levels[2 * PLANE..].iter().all(|&l| l == 77));
}

#[test]
fn same_bytes_decode_to_the_same_picture() {
    let pixels: Vec<u8> = (0..(40 * 30 * 3)).map(|k| (k * 13 % 256) as u8).collect();
    for format in [image::ImageFormat::Jpeg, image::ImageFormat::Png] {
        let bytes = encoded(40, 30, pixels.clone(), format);
        let first = decode(&bytes).ok().unwrap();
        let second = decode(&bytes.clone()).ok().unwrap();
        assert_eq!(first.width(), second.width());
        assert_eq!(first.height(), second.height());
        assert_eq!(first.pixels(), second.pixels());
        let first = jpg_to_chw(&bytes).ok().unwrap();
        let second = jpg_to_chw(&bytes).ok().unwrap();
        assert_eq!(first.levels(), second.levels());
    }
}

#[test]
fn bytes_of_an_unknown_format_are_refused() {
    let mut bytes = vec![0u8; 64];
    bytes[0] = b'B';
    bytes[1] = b'M';
    assert_eq!(decode(&bytes).err(), Some(FeatureError::Decode));
    assert_eq!(jpg_to_chw(&bytes).err(), Some(FeatureError::Decode));
}
