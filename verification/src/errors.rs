//! Errors reported to web clients.

use vstd::prelude::*;

verus! {

/// A lock could not be taken.
#[derive(Debug)]
pub struct LockError(pub String);

/// A storage operation failed.
#[derive(Debug)]
pub struct DatabaseError(pub String);

impl LockError {
    /// The text shown for the error: `锁获取失败: ` followed by the detail.
    pub fn message(&self) -> (s: String)
        ensures
            s@ == "锁获取失败: "@ + self.0@,
    {
        proof { reveal_strlit("锁获取失败: "); }
        let mut s = String::from_str("锁获取失败: ");
        s.append(self.0.as_str());
        s
    }
}

impl DatabaseError {
    /// The text shown for the error: `数据库错误: ` followed by the detail.
    pub fn message(&self) -> (s: String)
        ensures
            s@ == "数据库错误: "@ + self.0@,
    {
        proof { reveal_strlit("数据库错误: "); }
        let mut s = String::from_str("数据库错误: ");
        s.append(self.0.as_str());
        s
    }
}

} // verus!
