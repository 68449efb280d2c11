//! The HTTP API's errors: which status each answers with, and the body that
//! carries its message.
use vstd::prelude::*;

use crate::resolver::{resolve_error_message, AnimeResolveError};
use crate::text::{decimal, u32_decimal};

verus! {

/// The body of an error answer.
#[derive(Debug, Clone, PartialEq, Eq)]
pub struct ErrorBody {
    success: bool,
    message: String,
}

impl ErrorBody {
    /// The `success` field (for contracts).
    pub closed spec fn spec_success(&self) -> bool {
        self.success
    }

    /// The `message` field (for contracts).
    pub closed spec fn spec_message(&self) -> Seq<char> {
        self.message@
    }

    /// The body of a failed request with the given message.
    pub fn new(message: &str) -> (b: ErrorBody)
        ensures
            !b.spec_success(),
            b.spec_message() == message@,
    {
        ErrorBody { success: false, message: String::from_str(message) }
    }

    /// Whether the request succeeded: never, for an error body.
    pub fn success(&self) -> (s: bool)
        ensures
            s == self.spec_success(),
    {
        self.success
    }

    /// The message.
    pub fn message(&self) -> (m: &str)
        ensures
            m@ == self.spec_message(),
    {
        self.message.as_str()
    }
}

/// Codes that name the kinds of error.
#[derive(Debug, Clone, Copy, PartialEq, Eq)]
pub enum ErrorCode {
    DbError,
    ResolveAnimeError,
    EpisodeNotFound,
    SSEEventJsonDataConvert,
    WriteConfig,
    WriteCookie,
    ResolveCoverImage,
}

/// An error of an API request; causes from other components are carried as
/// their messages.
#[derive(Debug)]
pub enum ApiError {
    /// A database operation failed.
    Db(String),
    /// Resolving an anime failed.
    ResolveAnimeError(AnimeResolveError),
    /// No episode has this sn; the anime may not have been imported.
    EpisodeNotFound(u32),
    /// Turning a download event into SSE data failed.
    SSEEventJsonDataConvert(String),
    /// Writing the configuration file failed.
    WriteConfig(String),
    /// Writing the cookie file failed.
    WriteCookie(String),
    /// The resource does not exist.
    NotFound,
    /// Anything else, shown as its own message.
    Internal(String),
}

/// The message of an API error.
pub open spec fn api_error_message(e: ApiError) -> Seq<char> {
    match e {
        ApiError::Db(s) => "操作数据库发生错误："@ + s@,
        ApiError::ResolveAnimeError(r) => "解析动画发生错误："@ + resolve_error_message(r),
        ApiError::EpisodeNotFound(sn) => "未找到当前剧集，可能是未解析动画，剧集 sn 为 "@ + decimal(
            sn as nat,
        ),
        ApiError::SSEEventJsonDataConvert(s) => "SSE 事件数据转换出错："@ + s@,
        ApiError::WriteConfig(s) => "写入配置文件错误："@ + s@,
        ApiError::WriteCookie(s) => "写入 cookie 文件错误："@ + s@,
        ApiError::NotFound => "资源不存在"@,
        ApiError::Internal(s) => s@,
    }
}

/// The HTTP status of an API error: 404 for what does not exist, 500 for
/// everything else.
pub open spec fn api_error_status(e: ApiError) -> u16 {
    match e {
        ApiError::EpisodeNotFound(_) | ApiError::NotFound => 404,
        _ => 500,
    }
}

impl ApiError {
    /// The HTTP status this error answers with.
    pub fn status_code(&self) -> (s: u16)
        ensures
            s == api_error_status(*self),
    {
        match self {
            ApiError::EpisodeNotFound(_) | ApiError::NotFound => 404,
            _ => 500,
        }
    }

    /// The message this error is shown with.
    pub fn message(&self) -> (m: String)
        ensures
            m@ == api_error_message(*self),
    {
        match self {
            ApiError::Db(s) => String::from_str("操作数据库发生错误：").concat(s.as_str()),
            ApiError::ResolveAnimeError(r) => {
                let inner = r.message();
                String::from_str("解析动画发生错误：").concat(inner.as_str())
            },
            ApiError::EpisodeNotFound(sn) => {
                let digits = u32_decimal(*sn);
                String::from_str("未找到当前剧集，可能是未解析动画，剧集 sn 为 ").concat(
                    digits.as_str(),
                )
            },
            ApiError::SSEEventJsonDataConvert(s) => String::from_str("SSE 事件数据转换出错：").concat(
                s.as_str(),
            ),
            ApiError::WriteConfig(s) => String::from_str("写入配置文件错误：").concat(s.as_str()),
            ApiError::WriteCookie(s) => String::from_str("写入 cookie 文件错误：").concat(s.as_str()),
            ApiError::NotFound => String::from_str("资源不存在"),
            ApiError::Internal(s) => s.clone(),
        }
    }

    /// The answer to a request that failed with this error: its status and a
    /// body carrying its message.
    pub fn into_response(self) -> (r: (u16, ErrorBody))
        ensures
            r.0 == api_error_status(self),
            !r.1.spec_success(),
            r.1.spec_message() == api_error_message(self),
    {
        let status = self.status_code();
        let message = self.message();
        (status, ErrorBody::new(message.as_str()))
    }
}

} // verus!
