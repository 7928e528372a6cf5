//! Errors of the library and the texts they carry.

use vstd::prelude::*;
use vstd::string::StringExecFns;

verus! {

/// `std::io::Error`, carried through unread.
#[verifier::external_type_specification]
#[verifier::external_body]
pub struct ExIoError(std::io::Error);

/// The library's result type.
pub type AppResult<T> = Result<T, AppError>;

/// What can go wrong in a scan.
#[derive(Debug)]
pub enum AppError {
    /// The operating system refused a file operation.
    Io(std::io::Error),
    /// A stage of the scan failed; the text says which and why.
    Decode(String),
}

/// The stages of a scan that can fail, with the detail that the stage reported.
#[derive(Debug)]
pub enum Fault {
    /// The worker pool could not be built.
    ThreadPool(String),
    /// The directory scanner panicked.
    ScannerPanic,
    /// The container format was not recognised.
    Probe(String),
    /// No track of the file holds audio.
    NoAudioTrack,
    /// The codec is not supported.
    DecoderSetup(String),
    /// The loudness meter rejected the track's layout.
    MeterSetup(String),
    /// A packet could not be read.
    ReadPacket(String),
    /// A packet could not be decoded, and not merely because it is damaged.
    DecodePacket(String),
    /// The loudness meter rejected a block of samples.
    FeedMeter,
    /// The loudness meter gave no integrated loudness.
    Loudness,
    /// The file's tags could not be parsed.
    Metadata(String),
}

impl Fault {
    /// The text that reports the fault.
    pub open spec fn text(self) -> Seq<char> {
        match self {
            Fault::ThreadPool(detail) => "线程池初始化失败: "@ + detail@,
            Fault::ScannerPanic => "Scanner thread 发生系统级 Panic 崩溃"@,
            Fault::Probe(detail) => "格式探测失败: "@ + detail@,
            Fault::NoAudioTrack => "文件未包含有效音频轨或编解码器参数"@,
            Fault::DecoderSetup(detail) => "解码器初始化失败: "@ + detail@,
            Fault::MeterSetup(detail) => "EBUR128 初始化失败: "@ + detail@,
            Fault::ReadPacket(detail) => "读取包失败: "@ + detail@,
            Fault::DecodePacket(detail) => "解码错误: "@ + detail@,
            Fault::FeedMeter => "EBUR128 滤波器注入失败"@,
            Fault::Loudness => "全局响度计算失败(可能音频过短)"@,
            Fault::Metadata(detail) => "元数据解析失败: "@ + detail@,
        }
    }

    /// The text that reports the fault.
    pub fn message(&self) -> (message: String)
        ensures
            message@ == self.text(),
    {
        match self {
            Fault::ThreadPool(detail) => "线程池初始化失败: ".to_owned().concat(detail.as_str()),
            Fault::ScannerPanic => "Scanner thread 发生系统级 Panic 崩溃".to_owned(),
            Fault::Probe(detail) => "格式探测失败: ".to_owned().concat(detail.as_str()),
            Fault::NoAudioTrack => "文件未包含有效音频轨或编解码器参数".to_owned(),
            Fault::DecoderSetup(detail) => "解码器初始化失败: ".to_owned().concat(detail.as_str()),
            Fault::MeterSetup(detail) => "EBUR128 初始化失败: ".to_owned().concat(detail.as_str()),
            Fault::ReadPacket(detail) => "读取包失败: ".to_owned().concat(detail.as_str()),
            Fault::DecodePacket(detail) => "解码错误: ".to_owned().concat(detail.as_str()),
            Fault::FeedMeter => "EBUR128 滤波器注入失败".to_owned(),
            Fault::Loudness => "全局响度计算失败(可能音频过短)".to_owned(),
            Fault::Metadata(detail) => "元数据解析失败: ".to_owned().concat(detail.as_str()),
        }
    }
}

impl AppError {
    /// Whether the error is the report of `fault`.
    pub open spec fn reports(self, fault: Fault) -> bool {
        self matches AppError::Decode(message) && message@ == fault.text()
    }

    /// Reports a fault.
    pub fn decode(fault: Fault) -> (error: AppError)
        ensures
            error.reports(fault),
    {
        AppError::Decode(fault.message())
    }
}

impl From<std::io::Error> for AppError {
    fn from(err: std::io::Error) -> (error: Self) {
        AppError::Io(err)
    }
}

impl vstd::std_specs::convert::FromSpecImpl<std::io::Error> for AppError {
    open spec fn obeys_from_spec() -> bool {
        true
    }

    open spec fn from_spec(err: std::io::Error) -> AppError {
        AppError::Io(err)
    }
}

/// A fault's text is that of its stage, followed by the detail, if the stage reports one.
pub proof fn law_faults_are_reported_with_their_detail(detail: String)
    ensures
        Fault::ThreadPool(detail).text() == "线程池初始化失败: "@ + detail@,
        Fault::Probe(detail).text() == "格式探测失败: "@ + detail@,
        Fault::DecoderSetup(detail).text() == "解码器初始化失败: "@ + detail@,
        Fault::MeterSetup(detail).text() == "EBUR128 初始化失败: "@ + detail@,
        Fault::ReadPacket(detail).text() == "读取包失败: "@ + detail@,
        Fault::DecodePacket(detail).text() == "解码错误: "@ + detail@,
        Fault::Metadata(detail).text() == "元数据解析失败: "@ + detail@,
        Fault::ScannerPanic.text() == "Scanner thread 发生系统级 Panic 崩溃"@,
        Fault::NoAudioTrack.text() == "文件未包含有效音频轨或编解码器参数"@,
        Fault::FeedMeter.text() == "EBUR128 滤波器注入失败"@,
        Fault::Loudness.text() == "全局响度计算失败(可能音频过短)"@,
{
}

/// A fault is reported by its text, never as a failure of the operating system, which is
/// carried through as it came.
pub proof fn law_errors_say_what_failed(error: AppError, fault: Fault, refused: std::io::Error)
    ensures
        error.reports(fault) <==> (error matches AppError::Decode(message) && message@
            == fault.text()),
        <AppError as vstd::std_specs::convert::FromSpec<std::io::Error>>::from_spec(refused)
            == AppError::Io(refused),
{
}

} // verus!
