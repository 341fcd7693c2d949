use transcode::encoding::{
    hevc_encoder_settings, rgb_scaler_settings, EncodedStream, EncoderSettings, PixelFormat, ScaleFilter,
    ScalerSettings,
};

#[test]
fn scaler_keeps_the_size_and_converts_to_rgb() {
    assert_eq!(
        rgb_scaler_settings(1920, 1080),
        ScalerSettings {
            src_width: 1920,
            src_height: 1080,
            dst_format: PixelFormat::Rgb24,
            dst_width: 1920,
            dst_height: 1080,
            filter: ScaleFilter::Bilinear,
        }
    );
}

#[test]
fn encoder_takes_the_frame_size_in_yuv420p() {
    assert_eq!(
        hevc_encoder_settings(3840, 2160),
        EncoderSettings { width: 3840, height: 2160, format: PixelFormat::Yuv420p }
    );
}

#[test]
fn packets_are_concatenated_in_order() {
    let mut s = EncodedStream::new();
    assert_eq!(s.len(), 0);
    s.push_packet(&[1, 2]);
    s.push_packet(&[]);
    s.push_packet(&[3]);
    assert_eq!(s.len(), 3);
    assert_eq!(s.into_bytes(), vec![1, 2, 3]);
}

#[test]
fn no_packet_gives_no_bytes() {
    assert_eq!(EncodedStream::new().into_bytes(), Vec::<u8>::new());
}
