use led_strips::clock::Elapsed;
use led_strips::effects::{
    colors_rotation_by_side, cursor_add_nw, cursor_add_se, flashing, flicker_intensity_at,
    onoff_periodic, seemingly_random_vibration, slowly_changing_color, wave_modifier_nw,
    wave_modifier_se, west_to_east_gradiant_modifier,
};
use led_strips::leds::Strip;

fn sample(n: usize) -> Vec<[u8; 3]> {
    (0..n).map(|i| [(i * 3) as u8, (255 - i * 2) as u8, (i * 7 + 1) as u8]).collect()
}

#[test]
fn gradient_on_white_north_west() {
    let colors: Vec<[u8; 3]> =
        west_to_east_gradiant_modifier(Strip::NorthWest, &vec![[255, 255, 255]; 84]);
    let expected: Vec<[u8; 3]> = vec![
        [3, 3, 3], [3, 3, 3], [3, 3, 3], [3, 3, 3], [3, 3, 3], [3, 3, 3],
        [3, 3, 3], [3, 3, 3], [3, 3, 3], [3, 3, 3], [3, 3, 3], [3, 3, 3],
        [3, 3, 3], [3, 3, 3], [3, 3, 3], [3, 3, 3], [3, 3, 3], [3, 3, 3],
        [3, 3, 3], [3, 3, 3], [3, 3, 3], [3, 3, 3], [3, 3, 3], [7, 7, 7],
        [11, 11, 11], [15, 15, 15], [19, 19, 19], [23, 23, 23], [27, 27, 27], [31, 31, 31],
        [35, 35, 35], [39, 39, 39], [43, 43, 43], [47, 47, 47], [51, 51, 51], [55, 55, 55],
        [59, 59, 59], [63, 63, 63], [68, 68, 68], [72, 72, 72], [76, 76, 76], [80, 80, 80],
        [84, 84, 84], [88, 88, 88], [92, 92, 92], [96, 96, 96], [100, 100, 100], [104, 104, 104],
        [108, 108, 108], [112, 112, 112], [116, 116, 116], [120, 120, 120], [124, 124, 124], [129, 129, 129],
        [133, 133, 133], [137, 137, 137], [141, 141, 141], [145, 145, 145], [149, 149, 149], [153, 153, 153],
        [157, 157, 157], [161, 161, 161], [165, 165, 165], [169, 169, 169], [173, 173, 173], [177, 177, 177],
        [181, 181, 181], [185, 185, 185], [189, 189, 189], [194, 194, 194], [198, 198, 198], [202, 202, 202],
        [206, 206, 206], [210, 210, 210], [214, 214, 214], [218, 218, 218], [222, 222, 222], [226, 226, 226],
        [230, 230, 230], [234, 234, 234], [238, 238, 238], [242, 242, 242], [246, 246, 246], [250, 250, 250],
    ];
    assert_eq!(colors, expected);
}

#[test]
fn gradient_on_white_south_east() {
    let colors: Vec<[u8; 3]> =
        west_to_east_gradiant_modifier(Strip::SouthEast, &vec![[255, 255, 255]; 89]);
    let expected: Vec<[u8; 3]> = vec![
        [3, 3, 3], [6, 6, 6], [10, 10, 10], [14, 14, 14], [18, 18, 18], [22, 22, 22],
        [26, 26, 26], [30, 30, 30], [34, 34, 34], [38, 38, 38], [42, 42, 42], [46, 46, 46],
        [50, 50, 50], [54, 54, 54], [58, 58, 58], [62, 62, 62], [66, 66, 66], [69, 69, 69],
        [73, 73, 73], [77, 77, 77], [81, 81, 81], [85, 85, 85], [89, 89, 89], [93, 93, 93],
        [97, 97, 97], [101, 101, 101], [105, 105, 105], [109, 109, 109], [113, 113, 113], [117, 117, 117],
        [121, 121, 121], [125, 125, 125], [129, 129, 129], [132, 132, 132], [136, 136, 136], [140, 140, 140],
        [144, 144, 144], [148, 148, 148], [152, 152, 152], [156, 156, 156], [160, 160, 160], [164, 164, 164],
        [168, 168, 168], [172, 172, 172], [176, 176, 176], [180, 180, 180], [184, 184, 184], [188, 188, 188],
        [192, 192, 192], [195, 195, 195], [199, 199, 199], [203, 203, 203], [207, 207, 207], [211, 211, 211],
        [215, 215, 215], [219, 219, 219], [223, 223, 223], [227, 227, 227], [231, 231, 231], [235, 235, 235],
        [239, 239, 239], [243, 243, 243], [247, 247, 247], [251, 251, 251], [255, 255, 255], [255, 255, 255],
        [255, 255, 255], [255, 255, 255], [255, 255, 255], [255, 255, 255], [255, 255, 255], [255, 255, 255],
        [255, 255, 255], [255, 255, 255], [255, 255, 255], [255, 255, 255], [255, 255, 255], [255, 255, 255],
        [255, 255, 255], [255, 255, 255], [255, 255, 255], [255, 255, 255], [255, 255, 255], [255, 255, 255],
        [255, 255, 255], [255, 255, 255], [255, 255, 255], [255, 255, 255], [255, 255, 255],
    ];
    assert_eq!(colors, expected);
}

#[test]
fn gradient_on_colours() {
    let colors: Vec<[u8; 3]> = west_to_east_gradiant_modifier(Strip::NorthWest, &sample(84));
    let expected: Vec<[u8; 3]> = vec![
        [0, 3, 0], [0, 3, 0], [0, 3, 0], [0, 3, 0], [0, 3, 0], [0, 3, 0],
        [0, 3, 0], [0, 3, 0], [0, 3, 0], [0, 3, 1], [0, 3, 1], [0, 3, 1],
        [0, 3, 1], [0, 3, 1], [0, 3, 1], [0, 3, 1], [0, 3, 1], [0, 3, 1],
        [0, 3, 1], [0, 3, 2], [0, 3, 2], [0, 3, 2], [1, 3, 2], [2, 6, 5],
        [3, 9, 7], [4, 12, 11], [6, 15, 14], [7, 18, 17], [9, 21, 21], [10, 24, 25],
        [12, 27, 29], [14, 30, 34], [16, 32, 38], [18, 35, 43], [20, 37, 48], [22, 40, 53],
        [25, 42, 59], [27, 45, 1], [30, 48, 2], [33, 50, 5], [36, 52, 7], [38, 54, 10],
        [41, 56, 12], [44, 58, 15], [47, 60, 19], [51, 62, 22], [54, 64, 26], [57, 66, 30],
        [61, 67, 34], [64, 69, 38], [68, 70, 43], [72, 72, 48], [76, 73, 53], [80, 75, 58],
        [84, 76, 64], [88, 78, 70], [93, 79, 75], [97, 80, 82], [101, 81, 88], [106, 82, 95],
        [111, 83, 101], [115, 84, 108], [120, 84, 116], [125, 85, 123], [130, 86, 131], [135, 86, 139],
        [140, 87, 147], [146, 87, 155], [151, 88, 164], [157, 89, 173], [163, 89, 182], [168, 89, 191],
        [174, 89, 201], [180, 89, 0], [186, 89, 5], [192, 89, 11], [198, 89, 18], [204, 89, 24],
        [211, 89, 31], [217, 89, 38], [224, 88, 45], [230, 88, 53], [237, 87, 60], [244, 87, 68],
    ];
    assert_eq!(colors, expected);
    let colors: Vec<[u8; 3]> = west_to_east_gradiant_modifier(Strip::SouthEast, &sample(40));
    let expected: Vec<[u8; 3]> = vec![
        [0, 3, 0], [0, 6, 0], [0, 10, 0], [0, 14, 1], [0, 18, 2], [1, 22, 3],
        [1, 25, 4], [2, 29, 6], [3, 32, 7], [4, 36, 9], [5, 39, 11], [6, 42, 14],
        [7, 46, 16], [8, 49, 19], [9, 52, 22], [11, 55, 26], [12, 58, 29], [13, 60, 32],
        [15, 63, 36], [17, 66, 40], [19, 68, 45], [21, 71, 49], [23, 74, 54], [25, 76, 59],
        [27, 79, 64], [29, 81, 70], [32, 84, 75], [34, 86, 81], [37, 88, 87], [40, 90, 94],
        [42, 92, 100], [45, 94, 107], [48, 96, 114], [51, 98, 120], [54, 100, 127], [57, 101, 135],
        [61, 103, 143], [64, 105, 2], [68, 106, 6], [71, 108, 11],
    ];
    assert_eq!(colors, expected);
}

#[test]
fn gradient_has_a_floor_and_reaches_full_brightness() {
    let nw: Vec<[u8; 3]> =
        west_to_east_gradiant_modifier(Strip::NorthWest, &vec![[255, 255, 255]; 84]);
    // the west side stays at the floor: 4 * 255 / 256
    for n in 0..22 {
        assert_eq!(nw[n], [3, 3, 3]);
    }
    // the north side climbs from the floor
    assert_eq!(nw[22], [3, 3, 3]);
    // 4 + 252 * 31 / 62 = 130; 130 * 255 / 256 = 129
    assert_eq!(nw[53], [129, 129, 129]);
    // 4 + 252 * 61 / 62 = 251; 251 * 255 / 256 = 250
    assert_eq!(nw[83], [250, 250, 250]);
    for n in 23..84 {
        assert!(nw[n - 1][0] <= nw[n][0]);
    }
    let se: Vec<[u8; 3]> =
        west_to_east_gradiant_modifier(Strip::SouthEast, &vec![[255, 255, 255]; 89]);
    assert_eq!(se[0], [3, 3, 3]);
    // 4 + 252 * 32 / 64 = 130
    assert_eq!(se[32], [129, 129, 129]);
    // the east side is at full brightness
    for n in 64..89 {
        assert_eq!(se[n], [255, 255, 255]);
    }
    // no lit pixel goes dark
    assert!(nw.iter().chain(se.iter()).all(|c| c[0] > 0));
}

#[test]
fn gradient_of_nothing() {
    assert!(west_to_east_gradiant_modifier(Strip::NorthWest, &[]).is_empty());
    assert!(west_to_east_gradiant_modifier(Strip::SouthEast, &[]).is_empty());
}

#[test]
fn flashing_in_even_frames() {
    let colors: Vec<[u8; 3]> = flashing(0, &sample(30));
    let expected: Vec<[u8; 3]> = vec![
        [1, 255, 2], [6, 255, 18], [13, 255, 33], [20, 255, 49], [27, 255, 65], [33, 255, 81],
        [40, 255, 96], [47, 255, 112], [54, 255, 128], [60, 255, 144], [67, 255, 159], [74, 255, 175],
        [81, 255, 191], [87, 255, 207], [94, 255, 222], [101, 255, 238], [108, 255, 254], [114, 255, 255],
        [121, 255, 255], [128, 255, 255], [135, 255, 255], [141, 255, 255], [148, 255, 255], [155, 255, 255],
        [162, 255, 255], [168, 255, 255], [175, 255, 255], [182, 255, 255], [189, 255, 255], [195, 255, 255],
    ];
    assert_eq!(colors, expected);
    assert_eq!(flashing(254, &sample(30)), expected);
}

#[test]
fn flashing_leaves_odd_frames_alone() {
    assert_eq!(flashing(1, &sample(30)), sample(30));
    assert_eq!(flashing(255, &sample(30)), sample(30));
}

#[test]
fn flashing_boosts_each_channel() {
    // 100 * 9 / 4 = 225; 113 * 9 / 4 = 254; 114 * 9 / 4 = 256, held at 255
    assert_eq!(flashing(0, &[[100, 113, 114]]), vec![[225, 254, 255]]);
    // a dark channel is lifted to 1
    assert_eq!(flashing(0, &[[0, 1, 255]]), vec![[1, 2, 255]]);
    assert_eq!(flashing(0, &[]), Vec::<[u8; 3]>::new());
}

#[test]
fn flicker_intensities_north_west() {
    let colors: Vec<[u8; 3]> = seemingly_random_vibration(
        Elapsed::from_millis(1234),
        Strip::NorthWest,
        0,
        255,
        &vec![[0, 0, 0]; 84],
        |_c: [u8; 3], i: u8| [i, i, i],
    );
    let expected: Vec<[u8; 3]> = vec![
        [72, 72, 72], [80, 80, 80], [93, 93, 93], [108, 108, 108], [122, 122, 122], [134, 134, 134],
        [143, 143, 143], [150, 150, 150], [151, 151, 151], [146, 146, 146], [139, 139, 139], [130, 130, 130],
        [123, 123, 123], [117, 117, 117], [116, 116, 116], [119, 119, 119], [127, 127, 127], [142, 142, 142],
        [158, 158, 158], [178, 178, 178], [196, 196, 196], [210, 210, 210], [220, 220, 220], [224, 224, 224],
        [221, 221, 221], [211, 211, 211], [193, 193, 193], [172, 172, 172], [149, 149, 149], [127, 127, 127],
        [108, 108, 108], [92, 92, 92], [83, 83, 83], [80, 80, 80], [81, 81, 81], [85, 85, 85],
        [93, 93, 93], [100, 100, 100], [108, 108, 108], [113, 113, 113], [115, 115, 115], [115, 115, 115],
        [114, 114, 114], [112, 112, 112], [108, 108, 108], [110, 110, 110], [113, 113, 113], [120, 120, 120],
        [129, 129, 129], [140, 140, 140], [152, 152, 152], [163, 163, 163], [170, 170, 170], [173, 173, 173],
        [169, 169, 169], [159, 159, 159], [142, 142, 142], [123, 123, 123], [99, 99, 99], [77, 77, 77],
        [57, 57, 57], [41, 41, 41], [32, 32, 32], [30, 30, 30], [37, 37, 37], [52, 52, 52],
        [70, 70, 70], [92, 92, 92], [114, 114, 114], [135, 135, 135], [152, 152, 152], [164, 164, 164],
        [171, 171, 171], [174, 174, 174], [172, 172, 172], [167, 167, 167], [163, 163, 163], [158, 158, 158],
        [158, 158, 158], [159, 159, 159], [163, 163, 163], [170, 170, 170], [177, 177, 177], [185, 185, 185],
    ];
    assert_eq!(colors, expected);
}

#[test]
fn flicker_intensities_south_east() {
    let colors: Vec<[u8; 3]> = seemingly_random_vibration(
        Elapsed::from_millis(98_765),
        Strip::SouthEast,
        0,
        255,
        &vec![[0, 0, 0]; 89],
        |_c: [u8; 3], i: u8| [i, i, i],
    );
    let expected: Vec<[u8; 3]> = vec![
        [213, 213, 213], [228, 228, 228], [237, 237, 237], [237, 237, 237], [231, 231, 231], [216, 216, 216],
        [195, 195, 195], [168, 168, 168], [140, 140, 140], [113, 113, 113], [88, 88, 88], [68, 68, 68],
        [54, 54, 54], [46, 46, 46], [45, 45, 45], [49, 49, 49], [55, 55, 55], [64, 64, 64],
        [73, 73, 73], [80, 80, 80], [85, 85, 85], [87, 87, 87], [86, 86, 86], [86, 86, 86],
        [85, 85, 85], [86, 86, 86], [90, 90, 90], [97, 97, 97], [108, 108, 108], [122, 122, 122],
        [136, 136, 136], [150, 150, 150], [163, 163, 163], [173, 173, 173], [176, 176, 176], [175, 175, 175],
        [169, 169, 169], [157, 157, 157], [143, 143, 143], [129, 129, 129], [116, 116, 116], [106, 106, 106],
        [103, 103, 103], [103, 103, 103], [111, 111, 111], [124, 124, 124], [138, 138, 138], [156, 156, 156],
        [171, 171, 171], [183, 183, 183], [191, 191, 191], [192, 192, 192], [187, 187, 187], [176, 176, 176],
        [162, 162, 162], [144, 144, 144], [128, 128, 128], [114, 114, 114], [104, 104, 104], [98, 98, 98],
        [97, 97, 97], [104, 104, 104], [112, 112, 112], [123, 123, 123], [132, 132, 132], [142, 142, 142],
        [149, 149, 149], [152, 152, 152], [152, 152, 152], [145, 145, 145], [140, 140, 140], [132, 132, 132],
        [127, 127, 127], [122, 122, 122], [121, 121, 121], [122, 122, 122], [125, 125, 125], [130, 130, 130],
        [135, 135, 135], [138, 138, 138], [139, 139, 139], [134, 134, 134], [125, 125, 125], [110, 110, 110],
        [92, 92, 92], [73, 73, 73], [53, 53, 53], [35, 35, 35], [23, 23, 23],
    ];
    assert_eq!(colors, expected);
}

#[test]
fn flicker_stays_within_the_given_intensities() {
    let colors: Vec<[u8; 3]> = seemingly_random_vibration(
        Elapsed::from_millis(5000),
        Strip::NorthWest,
        100,
        200,
        &vec![[0, 0, 0]; 84],
        |_c: [u8; 3], i: u8| [i, i, i],
    );
    let expected: Vec<[u8; 3]> = vec![
        [175, 175, 175], [180, 180, 180], [182, 182, 182], [183, 183, 183], [181, 181, 181], [176, 176, 176],
        [170, 170, 170], [163, 163, 163], [156, 156, 156], [149, 149, 149], [143, 143, 143], [139, 139, 139],
        [136, 136, 136], [134, 134, 134], [133, 133, 133], [133, 133, 133], [132, 132, 132], [131, 131, 131],
        [129, 129, 129], [126, 126, 126], [123, 123, 123], [120, 120, 120], [117, 117, 117], [116, 116, 116],
        [116, 116, 116], [119, 119, 119], [125, 125, 125], [131, 131, 131], [141, 141, 141], [150, 150, 150],
        [160, 160, 160], [169, 169, 169], [176, 176, 176], [180, 180, 180], [181, 181, 181], [180, 180, 180],
        [175, 175, 175], [169, 169, 169], [161, 161, 161], [154, 154, 154], [146, 146, 146], [141, 141, 141],
        [137, 137, 137], [136, 136, 136], [138, 138, 138], [140, 140, 140], [144, 144, 144], [149, 149, 149],
        [153, 153, 153], [156, 156, 156], [158, 158, 158], [159, 159, 159], [158, 158, 158], [156, 156, 156],
        [155, 155, 155], [153, 153, 153], [152, 152, 152], [152, 152, 152], [155, 155, 155], [157, 157, 157],
        [161, 161, 161], [165, 165, 165], [167, 167, 167], [170, 170, 170], [170, 170, 170], [168, 168, 168],
        [165, 165, 165], [160, 160, 160], [153, 153, 153], [147, 147, 147], [140, 140, 140], [135, 135, 135],
        [132, 132, 132], [130, 130, 130], [131, 131, 131], [134, 134, 134], [139, 139, 139], [144, 144, 144],
        [149, 149, 149], [153, 153, 153], [155, 155, 155], [155, 155, 155], [152, 152, 152], [147, 147, 147],
    ];
    assert_eq!(colors, expected);
    assert!(colors.iter().all(|c| 100 <= c[0] && c[0] <= 200));
    let flat: Vec<[u8; 3]> = seemingly_random_vibration(
        Elapsed::from_millis(5000),
        Strip::SouthEast,
        77,
        77,
        &vec![[0, 0, 0]; 89],
        |_c: [u8; 3], i: u8| [i, 0, 0],
    );
    assert_eq!(flat, vec![[77, 0, 0]; 89]);
}

#[test]
fn flicker_hands_each_colour_to_the_map() {
    let colors: Vec<[u8; 3]> = seemingly_random_vibration(
        Elapsed::from_secs(3600),
        Strip::SouthEast,
        10,
        20,
        &sample(50),
        |c: [u8; 3], i: u8| [c[0].wrapping_add(i), c[1], i],
    );
    let expected: Vec<[u8; 3]> = vec![
        [12, 255, 12], [16, 253, 13], [19, 251, 13], [23, 249, 14], [27, 247, 15], [30, 245, 15],
        [34, 243, 16], [38, 241, 17], [42, 239, 18], [45, 237, 18], [48, 235, 18], [50, 233, 17],
        [53, 231, 17], [55, 229, 16], [57, 227, 15], [60, 225, 15], [62, 223, 14], [65, 221, 14],
        [68, 219, 14], [71, 217, 14], [74, 215, 14], [77, 213, 14], [80, 211, 14], [83, 209, 14],
        [86, 207, 14], [89, 205, 14], [92, 203, 14], [94, 201, 13], [97, 199, 13], [100, 197, 13],
        [102, 195, 12], [105, 193, 12], [108, 191, 12], [111, 189, 12], [115, 187, 13], [118, 185, 13],
        [122, 183, 14], [125, 181, 14], [128, 179, 14], [132, 177, 15], [135, 175, 15], [138, 173, 15],
        [141, 171, 15], [143, 169, 14], [146, 167, 14], [149, 165, 14], [151, 163, 13], [154, 161, 13],
        [158, 159, 14], [161, 157, 14],
    ];
    assert_eq!(colors, expected);
}

#[test]
fn flicker_pixel_by_pixel() {
    for (ms, strip, min, max) in [
        (1234u64, Strip::NorthWest, 0u8, 255u8),
        (98_765, Strip::SouthEast, 0, 255),
        (5000, Strip::NorthWest, 100, 200),
    ] {
        let t: Elapsed = Elapsed::from_millis(ms);
        let all: Vec<[u8; 3]> = seemingly_random_vibration(
            t,
            strip,
            min,
            max,
            &vec![[0, 0, 0]; strip.pixel_count()],
            |_c: [u8; 3], i: u8| [i, i, i],
        );
        for idx in 0..strip.pixel_count() {
            assert_eq!(flicker_intensity_at(t, strip, idx, min, max), all[idx][0]);
        }
    }
    // the first pixel of the north-west strip, 1234 ms after power-up
    assert_eq!(flicker_intensity_at(Elapsed::from_millis(1234), Strip::NorthWest, 0, 0, 255), 72);
}

#[test]
fn flicker_of_nothing() {
    let colors: Vec<[u8; 3]> = seemingly_random_vibration(
        Elapsed::from_secs(1),
        Strip::NorthWest,
        0,
        255,
        &[],
        |c: [u8; 3], _i: u8| c,
    );
    assert!(colors.is_empty());
}

#[test]
fn slow_fade_through_the_palette() {
    assert_eq!(slowly_changing_color(Elapsed::from_millis(0)), [254, 0, 0]);
    assert_eq!(slowly_changing_color(Elapsed::from_millis(1)), [254, 0, 0]);
    assert_eq!(slowly_changing_color(Elapsed::from_millis(30000)), [127, 64, 64]);
    assert_eq!(slowly_changing_color(Elapsed::from_millis(59999)), [0, 127, 127]);
    assert_eq!(slowly_changing_color(Elapsed::from_millis(60000)), [0, 127, 127]);
    assert_eq!(slowly_changing_color(Elapsed::from_millis(90000)), [0, 63, 191]);
    assert_eq!(slowly_changing_color(Elapsed::from_millis(359999)), [254, 0, 0]);
    assert_eq!(slowly_changing_color(Elapsed::from_millis(360000)), [254, 0, 0]);
    assert_eq!(slowly_changing_color(Elapsed::from_millis(400000)), [84, 85, 85]);
    assert_eq!(slowly_changing_color(Elapsed::from_millis(4294967295)), [100, 100, 53]);
    assert_eq!(slowly_changing_color(Elapsed::from_millis(4294997296)), [127, 64, 64]);
}

#[test]
fn slow_fade_half_way_between_red_and_cyan() {
    // progress 32768 out of 65536: 255 * 32767 / 65536 = 127.5, 128 * 32768 / 65536 = 64
    assert_eq!(slowly_changing_color(Elapsed::from_secs(30)), [127, 64, 64]);
}

fn check_sides(secs: u64, strip: Strip, first_len: usize, first: [u8; 3], second: [u8; 3]) {
    let colors: Vec<[u8; 3]> = colors_rotation_by_side(Elapsed::from_secs(secs), strip);
    assert_eq!(colors.len(), strip.pixel_count());
    for (n, c) in colors.iter().enumerate() {
        assert_eq!(*c, if n < first_len { first } else { second }, "pixel {}", n);
    }
}

#[test]
fn sides_have_one_colour_each_and_the_colours_move_on() {
    check_sides(0, Strip::NorthWest, 22, [255, 0, 0], [128, 0, 128]);
    check_sides(0, Strip::SouthEast, 64, [0, 255, 0], [0, 0, 255]);
    check_sides(2, Strip::NorthWest, 22, [128, 0, 128], [0, 0, 255]);
    check_sides(3, Strip::SouthEast, 64, [255, 0, 0], [0, 255, 0]);
    check_sides(4, Strip::NorthWest, 22, [0, 0, 255], [0, 255, 0]);
    check_sides(6, Strip::SouthEast, 64, [0, 0, 255], [128, 0, 128]);
    check_sides(8, Strip::NorthWest, 22, [255, 0, 0], [128, 0, 128]);
    check_sides(513, Strip::SouthEast, 64, [0, 255, 0], [0, 0, 255]);
}

#[test]
fn sides_move_on_every_two_seconds() {
    let at = |ms: u64| -> Vec<[u8; 3]> {
        colors_rotation_by_side(Elapsed::from_millis(ms), Strip::NorthWest)
    };
    assert_eq!(at(0), at(1999));
    assert_ne!(at(0), at(2000));
    assert_eq!(at(0), at(8000));
    // west is side 0 and north is side 1: north shows at the start what west
    // shows two seconds later
    assert_eq!(at(0)[83], at(2000)[0]);
}

#[test]
fn wave_over_the_north_west_strip() {
    let colors: Vec<[u8; 3]> = wave_modifier_nw(3, 7, &sample(84));
    let expected: Vec<[u8; 3]> = vec![
        [0, 149, 0], [1, 160, 5], [4, 170, 10], [6, 182, 16], [9, 191, 22], [12, 200, 29],
        [15, 208, 36], [18, 216, 44], [22, 220, 52], [25, 224, 60], [29, 227, 68], [32, 229, 76],
        [35, 229, 84], [39, 229, 92], [41, 225, 98], [44, 221, 104], [46, 216, 109], [48, 208, 113],
        [49, 201, 117], [50, 193, 119], [51, 184, 121], [51, 173, 120], [51, 163, 119], [49, 150, 116],
        [48, 140, 114], [47, 129, 111], [44, 115, 104], [42, 105, 99], [39, 93, 92], [36, 81, 84],
        [32, 70, 75], [29, 60, 68], [24, 49, 58], [21, 41, 50], [18, 33, 42], [13, 24, 32],
        [10, 18, 25], [7, 12, 0], [5, 8, 0], [2, 4, 0], [1, 2, 0], [0, 1, 0],
        [0, 1, 0], [1, 1, 0], [2, 2, 0], [4, 5, 1], [7, 8, 3], [12, 13, 6],
        [16, 18, 9], [21, 23, 13], [28, 29, 17], [35, 35, 23], [43, 42, 30], [53, 50, 38],
        [62, 56, 47], [73, 64, 57], [82, 70, 67], [93, 77, 78], [103, 82, 89], [113, 87, 101],
        [125, 93, 114], [135, 98, 127], [148, 104, 142], [156, 106, 154], [168, 111, 168], [176, 113, 181],
        [184, 114, 192], [193, 116, 205], [199, 116, 215], [205, 116, 226], [208, 114, 233], [211, 112, 240],
        [214, 110, 247], [213, 106, 0], [213, 102, 6], [212, 99, 13], [208, 94, 19], [203, 89, 24],
        [197, 83, 29], [190, 78, 33], [180, 71, 36], [172, 66, 39], [161, 59, 41], [151, 54, 42],
    ];
    assert_eq!(colors, expected);
}

#[test]
fn wave_over_the_south_east_strip() {
    let colors: Vec<[u8; 3]> = wave_modifier_se(5, 200, &sample(89));
    let expected: Vec<[u8; 3]> = vec![
        [0, 3, 0], [0, 0, 0], [0, 1, 0], [0, 9, 0], [0, 19, 2], [1, 30, 4],
        [3, 47, 8], [5, 64, 13], [8, 85, 20], [12, 105, 28], [15, 123, 37], [20, 143, 48],
        [25, 160, 59], [30, 178, 71], [35, 193, 84], [40, 203, 96], [45, 212, 107], [50, 217, 118],
        [53, 217, 126], [56, 215, 132], [58, 209, 137], [59, 199, 138], [58, 187, 138], [56, 171, 132],
        [54, 155, 126], [50, 139, 119], [45, 118, 107], [40, 100, 95], [34, 80, 80], [27, 63, 65],
        [22, 48, 52], [15, 33, 37], [10, 20, 24], [5, 10, 12], [2, 4, 5], [0, 1, 1],
        [0, 1, 1], [1, 2, 0], [6, 9, 0], [10, 16, 1], [17, 25, 3], [27, 39, 7],
        [38, 52, 11], [50, 66, 17], [62, 79, 25], [74, 91, 33], [90, 106, 43], [103, 118, 54],
        [117, 129, 65], [128, 137, 77], [138, 142, 87], [148, 148, 98], [154, 149, 108], [157, 147, 115],
        [159, 144, 121], [158, 139, 124], [153, 130, 125], [148, 122, 124], [138, 110, 120], [127, 98, 113],
        [115, 86, 105], [100, 72, 94], [87, 61, 83], [69, 47, 68], [55, 36, 55], [42, 27, 43],
        [27, 17, 29], [17, 10, 18], [7, 4, 8], [3, 1, 3], [1, 0, 1], [1, 0, 1],
        [6, 3, 7], [15, 7, 0], [26, 12, 0], [40, 18, 2], [58, 26, 5], [77, 33, 9],
        [100, 42, 15], [120, 49, 21], [142, 56, 29], [167, 63, 38], [188, 69, 48], [210, 75, 59],
        [226, 78, 69], [241, 80, 79], [1, 81, 88], [4, 80, 97], [7, 78, 104],
    ];
    assert_eq!(colors, expected);
}

#[test]
fn wave_with_the_most_periods() {
    let colors: Vec<[u8; 3]> = wave_modifier_se(65535, 255, &vec![[255, 255, 255]; 89]);
    let expected: Vec<[u8; 3]> = vec![
        [125, 125, 125], [241, 241, 241], [223, 223, 223], [87, 87, 87], [1, 1, 1], [65, 65, 65],
        [205, 205, 205], [251, 251, 251], [149, 149, 149], [21, 21, 21], [21, 21, 21], [149, 149, 149],
        [251, 251, 251], [203, 203, 203], [65, 65, 65], [1, 1, 1], [91, 91, 91], [223, 223, 223],
        [241, 241, 241], [121, 121, 121], [7, 7, 7], [39, 39, 39], [175, 175, 175], [255, 255, 255],
        [177, 177, 177], [43, 43, 43], [7, 7, 7], [119, 119, 119], [239, 239, 239], [225, 225, 225],
        [93, 93, 93], [1, 1, 1], [63, 63, 63], [199, 199, 199], [251, 251, 251], [151, 151, 151],
        [23, 23, 23], [21, 21, 21], [145, 145, 145], [249, 249, 249], [205, 205, 205], [67, 67, 67],
        [1, 1, 1], [87, 87, 87], [221, 221, 221], [243, 243, 243], [125, 125, 125], [9, 9, 9],
        [35, 35, 35], [173, 173, 173], [253, 253, 253], [183, 183, 183], [45, 45, 45], [5, 5, 5],
        [115, 115, 115], [237, 237, 237], [229, 229, 229], [97, 97, 97], [1, 1, 1], [57, 57, 57],
        [197, 197, 197], [253, 253, 253], [157, 157, 157], [25, 25, 25], [17, 17, 17], [139, 139, 139],
        [249, 249, 249], [209, 209, 209], [73, 73, 73], [1, 1, 1], [81, 81, 81], [219, 219, 219],
        [245, 245, 245], [129, 129, 129], [11, 11, 11], [33, 33, 33], [167, 167, 167], [253, 253, 253],
        [187, 187, 187], [49, 49, 49], [5, 5, 5], [109, 109, 109], [233, 233, 233], [231, 231, 231],
        [103, 103, 103], [3, 3, 3], [55, 55, 55], [191, 191, 191], [253, 253, 253],
    ];
    assert_eq!(colors, expected);
}

#[test]
fn wave_crest_and_trough() {
    // no periods: the same angle everywhere. Angle 64 is the crest, 192 the trough,
    // 0 the middle.
    assert_eq!(wave_modifier_nw(0, 64, &[[200, 100, 50]; 3]), vec![[200, 100, 50]; 3]);
    assert_eq!(wave_modifier_nw(0, 192, &[[200, 100, 50]; 3]), vec![[0, 0, 0]; 3]);
    assert_eq!(wave_modifier_nw(0, 0, &[[200, 100, 51]; 3]), vec![[100, 50, 25]; 3]);
    assert_eq!(wave_modifier_se(0, 64, &[[200, 100, 50]; 3]), vec![[200, 100, 50]; 3]);
    assert_eq!(wave_modifier_se(0, 0, &[]), Vec::<[u8; 3]>::new());
}

fn check_cursor(ms: u64, on_north_west: Option<usize>, on_south_east: Option<usize>) {
    let t: Elapsed = Elapsed::from_millis(ms);
    let nw: Vec<[u8; 3]> = cursor_add_nw(t, [1, 2, 3], &vec![[9, 9, 9]; 84]);
    let se: Vec<[u8; 3]> = cursor_add_se(t, [1, 2, 3], &vec![[9, 9, 9]; 89]);
    assert_eq!(nw.len(), 84);
    assert_eq!(se.len(), 89);
    for (pos, c) in nw.iter().enumerate() {
        assert_eq!(*c, if Some(pos) == on_north_west { [1, 2, 3] } else { [9, 9, 9] });
    }
    for (pos, c) in se.iter().enumerate() {
        assert_eq!(*c, if Some(pos) == on_south_east { [1, 2, 3] } else { [9, 9, 9] });
    }
}

#[test]
fn cursor_moves_along_the_perimeter() {
    check_cursor(0, Some(0), None);
    check_cursor(499, Some(0), None);
    check_cursor(500, Some(1), None);
    check_cursor(20500, Some(41), None);
    check_cursor(41999, Some(83), None);
    // the first position beyond the north-west strip has the first pixel of the
    // south-east strip
    check_cursor(42000, None, Some(0));
    check_cursor(42499, None, Some(0));
    check_cursor(42500, None, Some(88));
    check_cursor(50000, None, Some(73));
    check_cursor(86000, None, Some(1));
    check_cursor(86500, Some(0), None);
    check_cursor(2147483648000, Some(0), None);
}

#[test]
fn cursor_is_on_exactly_one_pixel_at_every_position() {
    let mut seen_north_west: Vec<usize> = Vec::new();
    let mut seen_south_east: Vec<usize> = Vec::new();
    for position in 0..173u64 {
        let t: Elapsed = Elapsed::from_millis(position * 500);
        let nw: Vec<[u8; 3]> = cursor_add_nw(t, [1, 2, 3], &vec![[9, 9, 9]; 84]);
        let se: Vec<[u8; 3]> = cursor_add_se(t, [1, 2, 3], &vec![[9, 9, 9]; 89]);
        let marked: usize = nw.iter().chain(se.iter()).filter(|c| **c == [1, 2, 3]).count();
        assert_eq!(marked, 1, "position {}", position);
        let kept: usize = nw.iter().chain(se.iter()).filter(|c| **c == [9, 9, 9]).count();
        assert_eq!(kept, 172, "position {}", position);
        seen_north_west.extend(nw.iter().position(|c| *c == [1, 2, 3]));
        seen_south_east.extend(se.iter().position(|c| *c == [1, 2, 3]));
    }
    // every pixel of both strips has its turn, once in a round
    seen_north_west.sort();
    seen_south_east.sort();
    assert_eq!(seen_north_west, (0..84usize).collect::<Vec<usize>>());
    assert_eq!(seen_south_east, (0..89usize).collect::<Vec<usize>>());
}

#[test]
fn cursor_at_42_seconds_is_on_one_pixel() {
    let t: Elapsed = Elapsed::from_millis(42_000);
    let nw: Vec<[u8; 3]> = cursor_add_nw(t, [255, 255, 255], &vec![[0, 0, 0]; 84]);
    let se: Vec<[u8; 3]> = cursor_add_se(t, [255, 255, 255], &vec![[0, 0, 0]; 89]);
    assert_eq!(nw, vec![[0, 0, 0]; 84]);
    let mut expected: Vec<[u8; 3]> = vec![[0, 0, 0]; 89];
    expected[0] = [255, 255, 255];
    assert_eq!(se, expected);
}

#[test]
fn cursor_keeps_the_other_colours() {
    let colors: Vec<[u8; 3]> = cursor_add_nw(Elapsed::from_millis(5 * 500), [0, 0, 0], &sample(84));
    let mut expected: Vec<[u8; 3]> = sample(84);
    expected[5] = [0, 0, 0];
    assert_eq!(colors, expected);
    let colors: Vec<[u8; 3]> =
        cursor_add_se(Elapsed::from_millis(100 * 500), [0, 0, 0], &sample(89));
    let mut expected: Vec<[u8; 3]> = sample(89);
    expected[73] = [0, 0, 0];
    assert_eq!(colors, expected);
    assert_eq!(cursor_add_se(Elapsed::from_millis(0), [0, 0, 0], &sample(89)), sample(89));
    assert_eq!(cursor_add_nw(Elapsed::from_millis(0), [0, 0, 0], &[]), Vec::<[u8; 3]>::new());
}

#[test]
fn on_for_three_seconds_off_for_three() {
    for (ms, on) in [
        (0u64, true),
        (2999, true),
        (3000, false),
        (5999, false),
        (6000, true),
        (8999, true),
        (9000, false),
        (3_600_000, true),
        (3_603_000, false),
    ] {
        let colors: Vec<[u8; 3]> = onoff_periodic(Elapsed::from_millis(ms), &sample(20));
        if on {
            assert_eq!(colors, sample(20), "at {} ms", ms);
        } else {
            assert_eq!(colors, vec![[0, 0, 0]; 20], "at {} ms", ms);
        }
    }
    assert!(onoff_periodic(Elapsed::from_millis(0), &[]).is_empty());
}
