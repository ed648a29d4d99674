//! The envelope of web API answers and the answer to a refused request.

use vstd::prelude::*;

verus! {

/// The body of a web API answer.
#[derive(Debug)]
pub struct ApiResponse<T> {
    pub code: u16,
    pub message: String,
    pub data: Option<T>,
}

/// A list with its length.
#[derive(Debug)]
pub struct ListResponse<T> {
    pub list: Vec<T>,
    pub total: usize,
}

/// The message of a successful answer.
pub open spec fn success_message() -> Seq<char> {
    "成功"@
}

fn success_text() -> (s: String)
    ensures
        s@ == success_message(),
{
    proof { reveal_strlit("成功"); }
    String::from_str("成功")
}

impl<T> ApiResponse<T> {
    pub fn new(code: u16, message: String, data: Option<T>) -> (r: Self)
        ensures
            r.code == code,
            r.message@ == message@,
            r.data == data,
    {
        ApiResponse { code, message, data }
    }

    /// Code 200, message `成功`, with the data.
    pub fn success(data: T) -> (r: Self)
        ensures
            r.code == 200,
            r.message@ == success_message(),
            r.data == Some(data),
    {
        Self::new(200, success_text(), Some(data))
    }

    /// Code 200, message `成功`, with the list and its length.
    pub fn success_list(data: Vec<T>) -> (r: ApiResponse<ListResponse<T>>)
        ensures
            r.code == 200,
            r.message@ == success_message(),
            r.data matches Some(l) && l.list@ == data@ && l.total == data@.len(),
    {
        let total = data.len();
        let list_response = ListResponse { list: data, total };
        ApiResponse::new(200, success_text(), Some(list_response))
    }

    /// An answer without data.
    pub fn error(code: u16, message: String) -> (r: Self)
        ensures
            r.code == code,
            r.message@ == message@,
            r.data is None,
    {
        Self::new(code, message, None)
    }
}

/// The HTTP status sent for an answer code: the code when it is a
/// three-digit status (as `http::StatusCode::from_u16` accepts), 200 otherwise.
pub fn status_for_code(code: u16) -> (s: u16)
    ensures
        s == if 100 <= code < 1000 { code } else { 200 },
{
    if 100 <= code && code < 1000 { code } else { 200 }
}

/// The page answered for a download request: `Downloading file: ` and the name.
pub fn download_page(file_name: &str) -> (s: String)
    ensures
        s@ == "Downloading file: "@ + file_name@,
{
    proof { reveal_strlit("Downloading file: "); }
    let mut s = String::from_str("Downloading file: ");
    s.append(file_name);
    s
}

/// Why a request was refused, as far as the answer depends on it.
pub enum Rejection {
    /// No route matched.
    NotFound,
    /// A lock could not be taken; the error's message.
    Lock(String),
    /// The web framework failed; its message.
    Framework(String),
    /// Anything else.
    Other,
}

/// The code and message answered for a refused request: 404 with
/// `未找到资源` when no route matched, 500 with the error's message for a
/// lock or framework failure, 500 with `内部服务器错误` otherwise.
pub fn rejection_reply(r: Rejection) -> (a: (u16, String))
    ensures
        match r {
            Rejection::NotFound => a.0 == 404 && a.1@ == "未找到资源"@,
            Rejection::Lock(m) => a.0 == 500 && a.1@ == m@,
            Rejection::Framework(m) => a.0 == 500 && a.1@ == m@,
            Rejection::Other => a.0 == 500 && a.1@ == "内部服务器错误"@,
        },
{
    proof {
        reveal_strlit("未找到资源");
        reveal_strlit("内部服务器错误");
    }
    match r {
        Rejection::NotFound => (404, String::from_str("未找到资源")),
        Rejection::Lock(m) => (500, m),
        Rejection::Framework(m) => (500, m),
        Rejection::Other => (500, String::from_str("内部服务器错误")),
    }
}

} // verus!
