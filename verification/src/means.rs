//! The binary price-tracking service's computations: parsing its fixed
//! nine-byte messages, the in-memory price table, and the windowed mean that
//! answers a query.

use vstd::prelude::*;

verus! {

use vstd::arithmetic::div_mod::{lemma_div_pos_is_pos, lemma_multiply_divide_le};

/// A recorded price observation.
pub struct InsertInput {
    pub timestamp: i32,
    pub price: i32,
}

/// A queried time window, inclusive on both ends.
pub struct QueryInput {
    pub min_time: i32,
    pub max_time: i32,
}

/// The answer to a query.
pub struct QueryOutput {
    pub mean: i32,
}

/// A decoded client message.
pub enum Message {
    Insert(InsertInput),
    Query(QueryInput),
}

/// The per-connection price table, in arrival order.
pub type Db = Vec<InsertInput>;

/// The signed 32-bit value big-endian bytes stand for: the unsigned value of
/// the four bytes, reinterpreted in two's complement.
pub open spec fn be_value(b0: u8, b1: u8, b2: u8, b3: u8) -> int {
    let u = (b0 as int) * 0x1000000 + (b1 as int) * 0x10000 + (b2 as int) * 0x100 + (b3 as int);
    if u < 0x80000000 {
        u
    } else {
        u - 0x100000000
    }
}

fn read_i32(b0: u8, b1: u8, b2: u8, b3: u8) -> (r: i32)
    ensures
        r as int == be_value(b0, b1, b2, b3),
{
    let u: u64 = (b0 as u64) * 0x1000000 + (b1 as u64) * 0x10000 + (b2 as u64) * 0x100 + (
    b3 as u64);
    if u < 0x80000000 {
        u as i32
    } else {
        ((u as i64) - 0x100000000i64) as i32
    }
}

fn write_i32(v: i32) -> (r: [u8; 4])
    ensures
        be_value(r[0], r[1], r[2], r[3]) == v as int,
{
    let u: u64 = if v >= 0 {
        v as u64
    } else {
        ((v as i64) + 0x100000000i64) as u64
    };
    let b0 = ((u >> 24) & 0xff) as u8;
    let b1 = ((u >> 16) & 0xff) as u8;
    let b2 = ((u >> 8) & 0xff) as u8;
    let b3 = (u & 0xff) as u8;
    proof {
        assert(u < 0x100000000 ==> (((u >> 24) & 0xff) < 256 && ((u >> 16) & 0xff) < 256 && ((u
            >> 8) & 0xff) < 256 && (u & 0xff) < 256 && ((u >> 24) & 0xff) * 0x1000000 + ((u >> 16)
            & 0xff) * 0x10000 + ((u >> 8) & 0xff) * 0x100 + (u & 0xff) == u)) by (bit_vector);
    }
    [b0, b1, b2, b3]
}

/// Decodes one nine-byte message: an `I` tag carries a timestamped price, a
/// `Q` tag a time window, and any other tag is an error that ends the
/// connection.
pub fn parse_message(buf: &[u8; 9]) -> (r: Result<Message, ()>)
    ensures
        buf@[0] == 73 ==> (r matches Ok(m) && m matches Message::Insert(inp) && inp.timestamp
            as int == be_value(buf@[1], buf@[2], buf@[3], buf@[4]) && inp.price as int == be_value(
            buf@[5],
            buf@[6],
            buf@[7],
            buf@[8],
        )),
        buf@[0] == 81 ==> (r matches Ok(m) && m matches Message::Query(q) && q.min_time as int
            == be_value(buf@[1], buf@[2], buf@[3], buf@[4]) && q.max_time as int == be_value(
            buf@[5],
            buf@[6],
            buf@[7],
            buf@[8],
        )),
        buf@[0] != 73 && buf@[0] != 81 ==> r is Err,
{
    if buf[0] == 73 {
        Ok(
            Message::Insert(
                InsertInput {
                    timestamp: read_i32(buf[1], buf[2], buf[3], buf[4]),
                    price: read_i32(buf[5], buf[6], buf[7], buf[8]),
                },
            ),
        )
    } else if buf[0] == 81 {
        Ok(
            Message::Query(
                QueryInput {
                    min_time: read_i32(buf[1], buf[2], buf[3], buf[4]),
                    max_time: read_i32(buf[5], buf[6], buf[7], buf[8]),
                },
            ),
        )
    } else {
        Err(())
    }
}

/// Records one observation.
pub fn insert(db: &mut Db, input: InsertInput)
    ensures
        final(db)@ == old(db)@.push(input),
{
    db.push(input);
}

/// Whether an observation's timestamp falls in the queried window.
pub open spec fn in_window(q: QueryInput, t: i32) -> bool {
    q.min_time <= t && t <= q.max_time
}

/// The sum of the prices observed inside the window.
pub open spec fn window_sum(db: Seq<InsertInput>, q: QueryInput) -> int
    decreases db.len(),
{
    if db.len() == 0 {
        0
    } else {
        window_sum(db.drop_last(), q) + if in_window(q, db.last().timestamp) {
            db.last().price as int
        } else {
            0
        }
    }
}

/// How many observations fall inside the window.
pub open spec fn window_count(db: Seq<InsertInput>, q: QueryInput) -> int
    decreases db.len(),
{
    if db.len() == 0 {
        0
    } else {
        window_count(db.drop_last(), q) + if in_window(q, db.last().timestamp) {
            1int
        } else {
            0int
        }
    }
}

/// Integer division rounding toward zero, as the machine division of the
/// accumulated sum behaves.
pub open spec fn div_toward_zero(a: int, b: int) -> int {
    if a >= 0 {
        a / b
    } else {
        -((-a) / b)
    }
}

/// The answer a query is owed: the windowed mean rounded toward zero, and 0
/// when the window is empty.
pub open spec fn mean_of(db: Seq<InsertInput>, q: QueryInput) -> int {
    if window_count(db, q) == 0 {
        0
    } else {
        div_toward_zero(window_sum(db, q), window_count(db, q))
    }
}

/// Answers a query over the current table: the mean of the prices whose
/// timestamps lie in the window, rounded toward zero, or 0 for an empty
/// window.
pub fn query(db: &Db, input: QueryInput) -> (r: QueryOutput)
    requires
        db@.len() < 0x100000000,
    ensures
        r.mean as int == mean_of(db@, input),
{
    let len = db.len();
    let mut cur_sum: i64 = 0;
    let mut cur_count: u64 = 0;
    let mut i: usize = 0;
    while i < len
        invariant
            len == db@.len() < 0x100000000,
            i <= len,
            cur_count as int == window_count(db@.take(i as int), input),
            cur_sum as int == window_sum(db@.take(i as int), input),
            cur_count <= i,
            -(cur_count as int) * 0x80000000 <= cur_sum as int <= (cur_count as int) * 0x7fffffff,
        decreases len - i,
    {
        let entry_time = db[i].timestamp;
        let entry_price = db[i].price;
        proof {
            assert(db@.take(i + 1).drop_last() =~= db@.take(i as int));
            assert(db@.take(i + 1).last() == db@[i as int]);
        }
        if input.min_time <= entry_time && entry_time <= input.max_time {
            cur_sum = cur_sum + entry_price as i64;
            cur_count = cur_count + 1;
        }
        i += 1;
    }
    proof {
        assert(db@.take(len as int) =~= db@);
    }
    let mean64: i64 = if cur_count == 0 {
        0
    } else if cur_sum >= 0 {
        proof {
            lemma_multiply_divide_le(cur_sum as int, cur_count as int, 0x7fffffff);
            lemma_div_pos_is_pos(cur_sum as int, cur_count as int);
        }
        ((cur_sum as u64) / cur_count) as i64
    } else {
        proof {
            lemma_multiply_divide_le(-(cur_sum as int), cur_count as int, 0x80000000);
            lemma_div_pos_is_pos(-(cur_sum as int), cur_count as int);
        }
        -((((-cur_sum) as u64) / cur_count) as i64)
    };
    QueryOutput { mean: mean64 as i32 }
}

/// One step of a connection's loop: decodes the message, applies an insert
/// to the table, and answers a query with the four big-endian bytes of the
/// windowed mean.  An unparseable message is the error that ends the
/// connection, and leaves the table alone.
pub fn step(db: &mut Db, buf: &[u8; 9]) -> (r: Result<Option<[u8; 4]>, ()>)
    requires
        old(db)@.len() < 0x100000000,
    ensures
        buf@[0] == 73 ==> (r matches Ok(out) && out is None && final(db)@ == old(db)@.push(
            (InsertInput {
                timestamp: be_value(buf@[1], buf@[2], buf@[3], buf@[4]) as i32,
                price: be_value(buf@[5], buf@[6], buf@[7], buf@[8]) as i32,
            }),
        )),
        buf@[0] == 81 ==> (r matches Ok(out) && final(db)@ == old(db)@ && (out matches Some(
        bytes,
        ) && be_value(bytes@[0], bytes@[1], bytes@[2], bytes@[3]) == mean_of(
            old(db)@,
            (QueryInput {
                min_time: be_value(buf@[1], buf@[2], buf@[3], buf@[4]) as i32,
                max_time: be_value(buf@[5], buf@[6], buf@[7], buf@[8]) as i32,
            }),
        ))),
        buf@[0] != 73 && buf@[0] != 81 ==> r is Err && final(db)@ == old(db)@,
{
    match parse_message(buf) {
        Err(e) => Err(e),
        Ok(Message::Insert(inp)) => {
            insert(db, inp);
            Ok(None)
        },
        Ok(Message::Query(q)) => {
            let out = query(db, q);
            Ok(Some(write_i32(out.mean)))
        },
    }
}

} // verus!
