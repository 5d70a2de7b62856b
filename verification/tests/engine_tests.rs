use redis_rs::engine::handle_command;
use redis_rs::engine::handle_request;
use redis_rs::store::Store;
use redis_rs::wire::RedisType;

fn text(v: &str) -> RedisType {
    RedisType::String { value: v.to_string() }
}

fn intval(v: i64) -> RedisType {
    RedisType::Integer { value: v }
}

fn run(store: &mut Store, name: &str, args: Vec<RedisType>, now: u64) -> RedisType {
    handle_command(store, &name.to_string(), &args, now)
}

fn expect_error(reply: &RedisType, message: &str) {
    match reply {
        RedisType::Error { value } => assert_eq!(value, message),
        other => panic!("expected an error reply, got {:?}", other),
    }
}

#[test]
fn set_then_get_returns_value() {
    let mut st = Store::new();
    let r = run(&mut st, "SET", vec![text("k"), text("v")], 0);
    assert_eq!(r, text("OK"));
    let r = run(&mut st, "GET", vec![text("k")], 0);
    assert_eq!(r, text("v"));
}

#[test]
fn set_nx_xx_is_rejected_without_write() {
    let mut st = Store::new();
    let r = run(&mut st, "SET", vec![text("k"), text("v"), text("NX"), text("XX")], 0);
    expect_error(&r, "SET: Cannot set both NX and XX");
    assert_eq!(run(&mut st, "GET", vec![text("k")], 0), RedisType::NullString);
}

#[test]
fn set_nx_and_xx_conditions() {
    let mut st = Store::new();
    assert_eq!(
        run(&mut st, "SET", vec![text("k"), text("v"), text("XX")], 0),
        RedisType::NullString
    );
    assert_eq!(run(&mut st, "GET", vec![text("k")], 0), RedisType::NullString);
    assert_eq!(run(&mut st, "SET", vec![text("k"), text("v"), text("NX")], 0), text("OK"));
    assert_eq!(
        run(&mut st, "SET", vec![text("k"), text("w"), text("NX")], 0),
        RedisType::NullString
    );
    assert_eq!(run(&mut st, "GET", vec![text("k")], 0), text("v"));
    assert_eq!(run(&mut st, "SET", vec![text("k"), text("w"), text("XX")], 0), text("OK"));
    assert_eq!(run(&mut st, "GET", vec![text("k")], 0), text("w"));
}

#[test]
fn set_get_option_returns_prior_value() {
    let mut st = Store::new();
    assert_eq!(
        run(&mut st, "SET", vec![text("k"), text("v1"), text("GET")], 0),
        RedisType::NullString
    );
    assert_eq!(run(&mut st, "SET", vec![text("k"), text("v2"), text("GET")], 0), text("v1"));
    // The prior value comes back even when NX aborts the write.
    assert_eq!(
        run(&mut st, "SET", vec![text("k"), text("v3"), text("NX"), text("GET")], 0),
        text("v2")
    );
    assert_eq!(run(&mut st, "GET", vec![text("k")], 0), text("v2"));
}

#[test]
fn bare_overwrite_clears_expiration() {
    let mut st = Store::new();
    // SETEX at second 0 gives the key 100 seconds to live.
    assert_eq!(run(&mut st, "SETEX", vec![text("k"), intval(100), text("v1")], 0), text("OK"));
    // A bare SET clears the entry, so a much later sweep leaves the key.
    assert_eq!(run(&mut st, "SET", vec![text("k"), text("v2")], 0), text("OK"));
    st.sweep_expired(1_000_000);
    assert_eq!(run(&mut st, "GET", vec![text("k")], 1_000_000), text("v2"));
}

#[test]
fn keepttl_preserves_expiration() {
    let mut st = Store::new();
    assert_eq!(run(&mut st, "SETEX", vec![text("k"), intval(100), text("v1")], 0), text("OK"));
    assert_eq!(
        run(&mut st, "SET", vec![text("k"), text("v2"), text("KEEPTTL")], 0),
        text("OK")
    );
    assert_eq!(st.peek_earliest_expiration(), Some(("k".to_string(), 100_000)));
    // The kept entry still fires.
    st.sweep_expired(1_000_000);
    assert_eq!(run(&mut st, "GET", vec![text("k")], 1_000_000), RedisType::NullString);
}

#[test]
fn msetnx_is_atomic() {
    let mut st = Store::new();
    assert_eq!(run(&mut st, "SET", vec![text("k1"), text("old")], 0), text("OK"));
    let r = run(
        &mut st,
        "MSETNX",
        vec![text("k1"), text("a"), text("k2"), text("b")],
        0,
    );
    assert_eq!(r, intval(0));
    assert_eq!(run(&mut st, "GET", vec![text("k1")], 0), text("old"));
    assert_eq!(run(&mut st, "GET", vec![text("k2")], 0), RedisType::NullString);
    let r = run(
        &mut st,
        "MSETNX",
        vec![text("k3"), text("a"), text("k4"), text("b")],
        0,
    );
    assert_eq!(r, intval(1));
    assert_eq!(run(&mut st, "GET", vec![text("k3")], 0), text("a"));
    assert_eq!(run(&mut st, "GET", vec![text("k4")], 0), text("b"));
}

#[test]
fn mset_and_mget() {
    let mut st = Store::new();
    assert_eq!(
        run(&mut st, "MSET", vec![text("a"), text("1"), text("b"), text("2")], 0),
        text("OK")
    );
    assert_eq!(
        run(&mut st, "MGET", vec![text("a"), text("missing"), text("b")], 0),
        RedisType::Array { value: vec![text("1"), RedisType::NullString, text("2")] }
    );
    let r = run(&mut st, "MSET", vec![text("a"), text("1"), text("c")], 0);
    expect_error(&r, "Expected an even number of args, got 3");
}

#[test]
fn expired_key_vanishes_after_sweep() {
    let mut st = Store::new();
    // An expiration at the current instant lies strictly before any later
    // sweep.
    assert_eq!(
        run(&mut st, "SET", vec![text("k"), text("v"), text("EX"), intval(0)], 1000),
        text("OK")
    );
    st.sweep_expired(1001);
    assert_eq!(run(&mut st, "GET", vec![text("k")], 1001), RedisType::NullString);
    assert!(!st.contains(&"k".to_string()));
}

#[test]
fn incr_on_non_integer_is_rejected() {
    let mut st = Store::new();
    assert_eq!(run(&mut st, "SET", vec![text("k"), text("abc")], 0), text("OK"));
    let r = run(&mut st, "INCR", vec![text("k")], 0);
    expect_error(&r, "Value is not an integer or out of range");
    assert_eq!(run(&mut st, "GET", vec![text("k")], 0), text("abc"));
}

#[test]
fn incr_decr_family() {
    let mut st = Store::new();
    assert_eq!(run(&mut st, "INCR", vec![text("n")], 0), intval(1));
    assert_eq!(run(&mut st, "INCR", vec![text("n")], 0), intval(2));
    assert_eq!(run(&mut st, "DECR", vec![text("n")], 0), intval(1));
    assert_eq!(run(&mut st, "INCRBY", vec![text("n"), intval(10)], 0), intval(11));
    assert_eq!(run(&mut st, "DECRBY", vec![text("n"), intval(4)], 0), intval(7));
    assert_eq!(run(&mut st, "GET", vec![text("n")], 0), text("7"));
    assert_eq!(run(&mut st, "DECR", vec![text("fresh")], 0), intval(-1));
    assert_eq!(run(&mut st, "INCRBY", vec![text("also"), text("5")], 0), intval(5));
}

#[test]
fn incr_overflow_is_rejected() {
    let mut st = Store::new();
    assert_eq!(
        run(&mut st, "SET", vec![text("k"), text("9223372036854775807")], 0),
        text("OK")
    );
    let r = run(&mut st, "INCR", vec![text("k")], 0);
    expect_error(&r, "Value is not an integer or out of range");
    assert_eq!(run(&mut st, "GET", vec![text("k")], 0), text("9223372036854775807"));
}

#[test]
fn unknown_command_is_named() {
    let mut st = Store::new();
    let req = RedisType::Array { value: vec![text("FOO")] };
    let r = handle_request(&mut st, req, 0).unwrap();
    expect_error(&r, "Unimplemented command: FOO");
}

#[test]
fn malformed_envelopes_are_dropped() {
    let mut st = Store::new();
    assert_eq!(handle_request(&mut st, text("GET"), 0), None);
    assert_eq!(handle_request(&mut st, RedisType::Array { value: vec![] }, 0), None);
    assert_eq!(
        handle_request(&mut st, RedisType::Array { value: vec![intval(1)] }, 0),
        None
    );
    assert_eq!(handle_request(&mut st, RedisType::NullArray, 0), None);
}

#[test]
fn command_names_are_case_insensitive() {
    let mut st = Store::new();
    let req = RedisType::Array { value: vec![text("set"), text("k"), text("v")] };
    assert_eq!(handle_request(&mut st, req, 0), Some(text("OK")));
    let req = RedisType::Array { value: vec![text("Get"), text("k")] };
    assert_eq!(handle_request(&mut st, req, 0), Some(text("v")));
}

#[test]
fn getrange_clamps_indices() {
    let mut st = Store::new();
    assert_eq!(run(&mut st, "SET", vec![text("k"), text("Hello")], 0), text("OK"));
    assert_eq!(run(&mut st, "GETRANGE", vec![text("k"), intval(-5), intval(100)], 0), text("Hello"));
    assert_eq!(run(&mut st, "GETRANGE", vec![text("k"), intval(3), intval(1)], 0), text(""));
    assert_eq!(run(&mut st, "GETRANGE", vec![text("k"), intval(1), intval(3)], 0), text("ell"));
    assert_eq!(
        run(&mut st, "GETRANGE", vec![text("missing"), intval(0), intval(1)], 0),
        RedisType::NullString
    );
}

#[test]
fn append_and_strlen() {
    let mut st = Store::new();
    assert_eq!(run(&mut st, "APPEND", vec![text("k"), text("Hello")], 0), intval(5));
    assert_eq!(run(&mut st, "APPEND", vec![text("k"), text(" world")], 0), intval(11));
    assert_eq!(run(&mut st, "GET", vec![text("k")], 0), text("Hello world"));
    assert_eq!(run(&mut st, "STRLEN", vec![text("k")], 0), intval(11));
    assert_eq!(run(&mut st, "STRLEN", vec![text("missing")], 0), intval(0));
}

#[test]
fn getset_getdel_setnx() {
    let mut st = Store::new();
    assert_eq!(run(&mut st, "GETSET", vec![text("k"), text("v1")], 0), RedisType::NullString);
    assert_eq!(run(&mut st, "GETSET", vec![text("k"), text("v2")], 0), text("v1"));
    assert_eq!(run(&mut st, "GETDEL", vec![text("k")], 0), text("v2"));
    assert_eq!(run(&mut st, "GETDEL", vec![text("k")], 0), RedisType::NullString);
    assert_eq!(run(&mut st, "SETNX", vec![text("k"), text("a")], 0), intval(1));
    assert_eq!(run(&mut st, "SETNX", vec![text("k"), text("b")], 0), intval(0));
    assert_eq!(run(&mut st, "GET", vec![text("k")], 0), text("a"));
}

#[test]
fn setrange_pads_and_overwrites() {
    let mut st = Store::new();
    assert_eq!(run(&mut st, "SETRANGE", vec![text("k"), intval(5), text("ab")], 0), intval(7));
    assert_eq!(run(&mut st, "GET", vec![text("k")], 0), text("     ab"));
    assert_eq!(run(&mut st, "SETRANGE", vec![text("k"), intval(1), text("Z")], 0), intval(2));
    assert_eq!(run(&mut st, "GET", vec![text("k")], 0), text(" Z"));
    let r = run(&mut st, "SETRANGE", vec![text("k"), intval(-1), text("x")], 0);
    expect_error(&r, "Offset is out of range");
}

#[test]
fn getex_modifies_expiration() {
    let mut st = Store::new();
    assert_eq!(run(&mut st, "SET", vec![text("k"), text("v")], 0), text("OK"));
    // GETEX with a clause arms the expiration without touching the value.
    assert_eq!(
        run(&mut st, "GETEX", vec![text("k"), text("PXAT"), intval(500)], 0),
        text("v")
    );
    assert_eq!(st.peek_earliest_expiration(), Some(("k".to_string(), 500)));
    // PERSIST disarms it again.
    assert_eq!(run(&mut st, "GETEX", vec![text("k"), text("PERSIST")], 0), text("v"));
    assert_eq!(st.peek_earliest_expiration(), None);
    st.sweep_expired(1_000_000);
    assert_eq!(run(&mut st, "GET", vec![text("k")], 0), text("v"));
    let r = run(&mut st, "GETEX", vec![text("k"), text("BOGUS")], 0);
    expect_error(&r, "Invalid argument");
}

#[test]
fn psetex_and_setex_scale_to_milliseconds() {
    let mut st = Store::new();
    assert_eq!(run(&mut st, "PSETEX", vec![text("a"), intval(250), text("v")], 1000), text("OK"));
    assert_eq!(st.peek_earliest_expiration(), Some(("a".to_string(), 1250)));
    assert_eq!(run(&mut st, "SETEX", vec![text("b"), intval(2), text("w")], 1000), text("OK"));
    st.sweep_expired(1251);
    assert_eq!(run(&mut st, "GET", vec![text("a")], 0), RedisType::NullString);
    assert_eq!(run(&mut st, "GET", vec![text("b")], 0), text("w"));
    st.sweep_expired(3001);
    assert_eq!(run(&mut st, "GET", vec![text("b")], 0), RedisType::NullString);
    let r = run(&mut st, "SETEX", vec![text("c"), intval(-1), text("v")], 0);
    expect_error(&r, "Invalid expire time");
}

#[test]
fn command_docs_is_an_empty_array() {
    let mut st = Store::new();
    assert_eq!(
        run(&mut st, "COMMAND", vec![text("docs")], 0),
        RedisType::Array { value: vec![] }
    );
    let r = run(&mut st, "COMMAND", vec![text("other")], 0);
    expect_error(&r, "Only DOCS is supported");
    let r = run(&mut st, "COMMAND", vec![], 0);
    expect_error(&r, "Expected 1 args, got 0");
}

#[test]
fn coercion_errors_name_the_argument() {
    let mut st = Store::new();
    let r = run(&mut st, "GET", vec![RedisType::NullString], 0);
    expect_error(&r, "Attempted to use $-1\r\n as a string");
    let r = run(&mut st, "INCRBY", vec![text("k"), text("ten")], 0);
    expect_error(&r, "Attempted to use +ten\r\n as an integer");
    let r = run(&mut st, "GET", vec![intval(5)], 0);
    assert_eq!(r, RedisType::NullString);
    let r = run(&mut st, "SET", vec![text("k"), text("v"), text("WAT")], 0);
    expect_error(&r, "Unexpected parameter: +WAT\r\n");
    let r = run(&mut st, "GETEX", vec![text("k"), text("EX")], 0);
    expect_error(&r, "Not enough args");
}

#[test]
fn set_rejects_conflicting_ttl_options() {
    let mut st = Store::new();
    let r = run(
        &mut st,
        "SET",
        vec![text("k"), text("v"), text("EX"), intval(5), text("KEEPTTL")],
        0,
    );
    expect_error(&r, "SET: Cannot set more than one of EX/PX/EXAT/PXAT/KEEPTTL");
    let r = run(
        &mut st,
        "SET",
        vec![text("k"), text("v"), text("EX"), intval(5), text("PX"), intval(9)],
        0,
    );
    expect_error(&r, "SET: Cannot set more than one of EX/PX/EXAT/PXAT/KEEPTTL");
}
