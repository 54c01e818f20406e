use rscam::{FormatInfo, IntervalInfo, ResolutionInfo};

#[test]
fn describe_discrete_sizes() {
    let r = ResolutionInfo::Discretes(vec![(640, 480), (1280, 720), (1920, 1080)]);
    assert_eq!(r.describe(), "Discretes: 640x480, 1280x720, 1920x1080");
    let one = ResolutionInfo::Discretes(vec![(0, 4_294_967_295)]);
    assert_eq!(one.describe(), "Discretes: 0x4294967295");
}

#[test]
fn describe_stepwise_sizes() {
    let r = ResolutionInfo::Stepwise { min: (16, 16), max: (1920, 1080), step: (8, 4) };
    assert_eq!(r.describe(), "Stepwise from 16x16 to 1920x1080 by 8x4");
}

#[test]
fn describe_intervals_as_fps() {
    let d = IntervalInfo::Discretes(vec![(1, 30), (1, 15), (2, 15)]);
    assert_eq!(d.describe(), "Discretes: 30fps, 15fps, 7fps");
    let s = IntervalInfo::Stepwise { min: (1, 60), max: (1, 5), step: (1, 1) };
    assert_eq!(s.describe(), "Stepwise from 5fps to 60fps by 1fps");
}

#[test]
fn describe_formats() {
    let mjpg = FormatInfo::new(0x4750_4a4d, b"Motion-JPEG\0", 1);
    assert_eq!(mjpg.describe(), "MJPG (Motion-JPEG, compressed)");
    let both = FormatInfo::new(0x4750_4a4d, b"Motion-JPEG", 3);
    assert_eq!(both.describe(), "MJPG (Motion-JPEG, compressed, emulated)");
    let emulated = FormatInfo::new(0x3342_4752, b"RGB3", 2);
    assert_eq!(emulated.describe(), "RGB3 (RGB3, emulated)");
    let raw = FormatInfo::new(0x5659_5559, b"YUYV 4:2:2", 0);
    assert_eq!(raw.describe(), "YUYV (YUYV 4:2:2)");
}
