//! Replies of the task store, and the reading of the next task out of them.

use crate::text::chars_of;
use vstd::prelude::*;

verus! {

/// A reply of the task store.
#[derive(Debug)]
pub enum RedisValue {
    Nil,
    Int(i64),
    Data(Vec<u8>),
    Bulk(Vec<RedisValue>),
    Status(String),
    Okay,
}

/// The text that `bytes` encode in UTF-8, or `None` when they are not UTF-8.
pub uninterp spec fn utf8_text(bytes: Seq<u8>) -> Option<Seq<char>>;

/// Decodes UTF-8 with `String::from_utf8`; the result is named by
/// [`utf8_text`].
#[verifier::external_body]
fn decode_utf8(bytes: &Vec<u8>) -> (r: Option<String>)
    ensures
        r is Some <==> utf8_text(bytes@) is Some,
        r matches Some(s) ==> utf8_text(bytes@) == Some(s@),
{
    String::from_utf8(bytes.clone()).ok()
}

/// The value of a string of ASCII digits.
pub open spec fn digits_value(s: Seq<char>) -> int
    decreases s.len(),
{
    if s.len() == 0 {
        0
    } else {
        digits_value(s.drop_last()) * 10 + (s.last() as int - '0' as int)
    }
}

/// Every character is an ASCII digit.
pub open spec fn all_digits(s: Seq<char>) -> bool {
    forall|i: int| 0 <= i < s.len() ==> '0' <= #[trigger] s[i] <= '9'
}

/// The number a decimal text spells, as `i64::from_str` reads it: an optional
/// `+` or `-`, then one or more ASCII digits, within the range of `i64`.
pub open spec fn decimal_i64(s: Seq<char>) -> Option<i64> {
    let negative = s.len() > 0 && s[0] == '-';
    let body = if s.len() > 0 && (s[0] == '-' || s[0] == '+') { s.drop_first() } else { s };
    if body.len() == 0 || !all_digits(body) {
        None
    } else {
        let v = if negative { -digits_value(body) } else { digits_value(body) };
        if i64::MIN <= v <= i64::MAX { Some(v as i64) } else { None }
    }
}

/// A text of ASCII digits spells a value of at least zero.
proof fn lemma_digits_value_nonneg(s: Seq<char>)
    requires
        forall|i: int| 0 <= i < s.len() ==> '0' <= #[trigger] s[i] <= '9',
    ensures
        digits_value(s) >= 0,
    decreases s.len(),
{
    if s.len() > 0 {
        lemma_digits_value_nonneg(s.drop_last());
    }
}

/// More digits never spell a smaller value.
proof fn lemma_digits_value_grows(s: Seq<char>, k: int)
    requires
        0 <= k <= s.len(),
        forall|i: int| 0 <= i < s.len() ==> '0' <= #[trigger] s[i] <= '9',
    ensures
        digits_value(s) >= digits_value(s.take(k)),
    decreases s.len(),
{
    if k < s.len() {
        let d = s.drop_last();
        lemma_digits_value_grows(d, k);
        lemma_digits_value_nonneg(d);
        assert(d.take(k) =~= s.take(k));
    } else {
        assert(s.take(k) =~= s);
    }
}

/// Reads a decimal number in the form of [`decimal_i64`], the form that
/// `str::parse::<i64>` reads.
fn parse_i64(s: &str) -> (r: Option<i64>)
    ensures
        r == decimal_i64(s@),
{
    let chars = chars_of(s);
    let n = chars.len();
    let negative = n > 0 && chars[0] == '-';
    let start: usize = if n > 0 && (chars[0] == '-' || chars[0] == '+') { 1 } else { 0 };
    let ghost body = s@.subrange(start as int, n as int);
    proof {
        if start == 1 {
            assert(body =~= s@.drop_first());
        } else {
            assert(body =~= s@);
        }
    }
    if start == n {
        return None;
    }
    let mut v: i128 = 0;
    let mut i: usize = start;
    proof {
        assert(s@.subrange(start as int, start as int) =~= Seq::<char>::empty());
    }
    while i < n
        invariant
            chars@ == s@,
            n == s@.len(),
            start <= i <= n,
            body == s@.subrange(start as int, n as int),
            body == (if s@.len() > 0 && (s@[0] == '-' || s@[0] == '+') { s@.drop_first() } else { s@ }),
            negative == (s@.len() > 0 && s@[0] == '-'),
            forall|k: int| start <= k < i ==> '0' <= #[trigger] s@[k] <= '9',
            v == digits_value(s@.subrange(start as int, i as int)),
            0 <= v <= 9_223_372_036_854_775_808,
        decreases n - i,
    {
        let c = chars[i];
        if !('0' <= c && c <= '9') {
            proof {
                assert(!('0' <= body[i - start] <= '9'));
            }
            return None;
        }
        let d: i128 = (c as u32 - '0' as u32) as i128;
        proof {
            assert(s@.subrange(start as int, i + 1).drop_last() =~= s@.subrange(start as int, i as int));
        }
        v = v * 10 + d;
        i = i + 1;
        if v > 9_223_372_036_854_775_808 {
            proof {
                if all_digits(body) {
                    lemma_digits_value_grows(body, i - start);
                    assert(body.take(i - start) =~= s@.subrange(start as int, i as int));
                }
            }
            return None;
        }
    }
    proof {
        assert(s@.subrange(start as int, n as int) =~= body);
        assert(all_digits(body));
    }
    let value: i128 = if negative { -v } else { v };
    if value > 9_223_372_036_854_775_807 {
        return None;
    }
    Some(value as i64)
}

/// Why a reply does not hold a next task.
#[derive(Debug, Copy, Clone, PartialEq, Eq, Structural)]
pub enum NextTaskError {
    NotBulk,
    NotDataAndBulk,
    QueueNameNotUtf8,
    FirstValueNotBulk,
    FirstMemberNotData,
    TaskIdNotUtf8,
    TaskIdNotNumber,
}

impl NextTaskError {
    pub open spec fn message(&self) -> Seq<char> {
        match self {
            NextTaskError::NotBulk => "Unexpected Redis value, not a Bulk type"@,
            NextTaskError::NotDataAndBulk => "Unexpected Redis values, not a Bulk of [Data, Bulk]"@,
            NextTaskError::QueueNameNotUtf8 => "Invalid queue name, non UTF-8."@,
            NextTaskError::FirstValueNotBulk => "Unexpected values, first Bulk value not a Bulk type"@,
            NextTaskError::FirstMemberNotData => "Unexpected values, first member not a Data type"@,
            NextTaskError::TaskIdNotUtf8 => "Could not parse task_id to String."@,
            NextTaskError::TaskIdNotNumber => "Could not parse task_id to i64."@,
        }
    }

    /// The description of the error, followed by its kind (all are type
    /// errors).
    pub fn to_string(&self) -> (r: String)
        ensures
            r@ == self.message() + "- TypeError"@,
    {
        let m = match self {
            NextTaskError::NotBulk => "Unexpected Redis value, not a Bulk type",
            NextTaskError::NotDataAndBulk => "Unexpected Redis values, not a Bulk of [Data, Bulk]",
            NextTaskError::QueueNameNotUtf8 => "Invalid queue name, non UTF-8.",
            NextTaskError::FirstValueNotBulk => "Unexpected values, first Bulk value not a Bulk type",
            NextTaskError::FirstMemberNotData => "Unexpected values, first member not a Data type",
            NextTaskError::TaskIdNotUtf8 => "Could not parse task_id to String.",
            NextTaskError::TaskIdNotNumber => "Could not parse task_id to i64.",
        };
        let mut s = m.to_owned();
        s.append("- TypeError");
        s
    }
}

/// The next task popped from a queue: its identifier and the queue's name.
#[derive(Debug)]
pub struct NextTask {
    pub task_id: i64,
    pub queue_name: String,
}

/// Whether the reply has the shape `[Data, Bulk]` with a UTF-8 queue name and
/// an empty inner list, on which the reading fails by indexing.
pub open spec fn next_task_out_of_bounds(v: RedisValue) -> bool {
    &&& v is Bulk
    &&& v->Bulk_0@.len() == 2
    &&& v->Bulk_0@[0] is Data
    &&& utf8_text(v->Bulk_0@[0]->Data_0@) is Some
    &&& v->Bulk_0@[1] is Bulk
    &&& v->Bulk_0@[1]->Bulk_0@.len() == 0
}

/// What a reply to popping a queue holds: `[queue name, [[task id, score]]]`.
pub open spec fn next_task_of(v: RedisValue) -> Result<(i64, Seq<char>), NextTaskError> {
    match v {
        RedisValue::Bulk(items) => {
            if !(items@.len() == 2 && items@[0] is Data && items@[1] is Bulk) {
                Err(NextTaskError::NotDataAndBulk)
            } else {
                let name = items@[0]->Data_0;
                let values = items@[1]->Bulk_0;
                match utf8_text(name@) {
                    None => Err(NextTaskError::QueueNameNotUtf8),
                    Some(queue) => match values@[0] {
                        RedisValue::Bulk(members) => {
                            if !(members@.len() == 2 && members@[0] is Data) {
                                Err(NextTaskError::FirstMemberNotData)
                            } else {
                                match utf8_text(members@[0]->Data_0@) {
                                    None => Err(NextTaskError::TaskIdNotUtf8),
                                    Some(id) => match decimal_i64(id) {
                                        None => Err(NextTaskError::TaskIdNotNumber),
                                        Some(task_id) => Ok((task_id, queue)),
                                    },
                                }
                            }
                        },
                        _ => Err(NextTaskError::FirstValueNotBulk),
                    },
                }
            }
        },
        _ => Err(NextTaskError::NotBulk),
    }
}

impl NextTask {
    /// Reads the next task out of a reply to popping a queue (see
    /// [`next_task_of`]).
    pub fn from_redis_value(v: &RedisValue) -> (r: Result<NextTask, NextTaskError>)
        requires
            !next_task_out_of_bounds(*v),
        ensures
            match r {
                Ok(t) => next_task_of(*v) == Ok::<(i64, Seq<char>), NextTaskError>((t.task_id, t.queue_name@)),
                Err(e) => next_task_of(*v) == Err::<(i64, Seq<char>), NextTaskError>(e),
            },
    {
        let items = match v {
            RedisValue::Bulk(items) => items,
            _ => return Err(NextTaskError::NotBulk),
        };
        if items.len() != 2 {
            return Err(NextTaskError::NotDataAndBulk);
        }
        let name = match &items[0] {
            RedisValue::Data(name) => name,
            _ => return Err(NextTaskError::NotDataAndBulk),
        };
        let values = match &items[1] {
            RedisValue::Bulk(values) => values,
            _ => return Err(NextTaskError::NotDataAndBulk),
        };
        let queue_name = match decode_utf8(name) {
            Some(q) => q,
            None => return Err(NextTaskError::QueueNameNotUtf8),
        };
        let members = match &values[0] {
            RedisValue::Bulk(members) => members,
            _ => return Err(NextTaskError::FirstValueNotBulk),
        };
        if members.len() != 2 {
            return Err(NextTaskError::FirstMemberNotData);
        }
        let id_bytes = match &members[0] {
            RedisValue::Data(b) => b,
            _ => return Err(NextTaskError::FirstMemberNotData),
        };
        let id_text = match decode_utf8(id_bytes) {
            Some(t) => t,
            None => return Err(NextTaskError::TaskIdNotUtf8),
        };
        let task_id = match parse_i64(id_text.as_str()) {
            Some(n) => n,
            None => return Err(NextTaskError::TaskIdNotNumber),
        };
        Ok(NextTask { task_id, queue_name })
    }
}

} // verus!
