use rgain::{AppError, Fault};

#[test]
fn faults_have_their_texts() {
    let detail = || "x".to_string();
    let cases = [
        (Fault::ThreadPool(detail()), "线程池初始化失败: x"),
        (Fault::ScannerPanic, "Scanner thread 发生系统级 Panic 崩溃"),
        (Fault::Probe(detail()), "格式探测失败: x"),
        (Fault::NoAudioTrack, "文件未包含有效音频轨或编解码器参数"),
        (Fault::DecoderSetup(detail()), "解码器初始化失败: x"),
        (Fault::MeterSetup(detail()), "EBUR128 初始化失败: x"),
        (Fault::ReadPacket(detail()), "读取包失败: x"),
        (Fault::DecodePacket(detail()), "解码错误: x"),
        (Fault::FeedMeter, "EBUR128 滤波器注入失败"),
        (Fault::Loudness, "全局响度计算失败(可能音频过短)"),
        (Fault::Metadata(detail()), "元数据解析失败: x"),
    ];
    for (fault, text) in cases {
        assert_eq!(fault.message(), text);
        assert!(matches!(AppError::decode(fault), AppError::Decode(message) if message == text));
    }
}

#[test]
fn operating_system_errors_are_carried_through() {
    let error = AppError::from(std::io::Error::new(std::io::ErrorKind::PermissionDenied, "no"));
    match error {
        AppError::Io(inner) => {
            assert_eq!(inner.kind(), std::io::ErrorKind::PermissionDenied);
            assert_eq!(inner.to_string(), "no");
        }
        AppError::Decode(_) => panic!("not an input or output error"),
    }
}
