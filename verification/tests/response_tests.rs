use uniclipboard::errors::{DatabaseError, LockError};
use uniclipboard::response::{rejection_reply, status_for_code, ApiResponse, Rejection};

#[test]
fn test_api_response_success() {
    let response = ApiResponse::success("测试数据".to_string());
    assert_eq!(response.code, 200);
    assert_eq!(response.message, "成功");
    assert_eq!(response.data, Some("测试数据".to_string()));
}

#[test]
fn test_api_response_error() {
    let response = ApiResponse::<String>::error(400, "错误信息".to_string());
    assert_eq!(response.code, 400);
    assert_eq!(response.message, "错误信息");
    assert_eq!(response.data, None);
}

#[test]
fn test_api_response_success_list() {
    let data = vec!["项目1".to_string(), "项目2".to_string(), "项目3".to_string()];
    let response = ApiResponse::success_list(data);
    assert_eq!(response.code, 200);
    assert_eq!(response.message, "成功");
    if let Some(list_response) = response.data {
        assert_eq!(list_response.total, 3);
        assert_eq!(list_response.list, vec!["项目1", "项目2", "项目3"]);
    } else {
        panic!("预期 data 字段不为 None");
    }
}

#[test]
fn status_codes_outside_three_digits_become_ok() {
    assert_eq!(status_for_code(404), 404);
    assert_eq!(status_for_code(100), 100);
    assert_eq!(status_for_code(999), 999);
    assert_eq!(status_for_code(99), 200);
    assert_eq!(status_for_code(1000), 200);
}

#[test]
fn rejection_answers() {
    assert_eq!(rejection_reply(Rejection::NotFound), (404, "未找到资源".to_string()));
    let lock = LockError("poisoned".to_string());
    assert_eq!(lock.message(), "锁获取失败: poisoned");
    assert_eq!(
        rejection_reply(Rejection::Lock(lock.message())),
        (500, "锁获取失败: poisoned".to_string())
    );
    assert_eq!(
        rejection_reply(Rejection::Framework("bad".to_string())),
        (500, "bad".to_string())
    );
    assert_eq!(rejection_reply(Rejection::Other), (500, "内部服务器错误".to_string()));
    assert_eq!(DatabaseError("x".to_string()).message(), "数据库错误: x");
}
