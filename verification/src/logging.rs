//! The logger client.
//!
//! Log messages are fire and forget. The severity codes on the wire are
//! inverted relative to the natural ordering — error is 1, warn is 2, info
//! is 3, the lowest number being the most severe — and the host dispatches
//! purely on that integer, so the exact mapping is part of the wire contract.

use vstd::prelude::*;
use vstd::utf8::encode_utf8;

use crate::host::{Host, InvocationContext, LogV};
use crate::util::str_to_vec;

verus! {

/// Severity wire code for errors: the most severe, and the lowest number.
pub const LOG_LEVEL_ERROR: i32 = 1;

/// Severity wire code for warnings.
pub const LOG_LEVEL_WARN: i32 = 2;

/// Severity wire code for informational messages: the least severe, and the
/// highest number.
pub const LOG_LEVEL_INFO: i32 = 3;

/// Send one message at the given severity code.
fn log_at_level<H: Host>(host: &mut H, ctx: &InvocationContext, msg: &str, level: i32)
    requires
        old(host).inv(),
    ensures
        final(host).inv(),
        crate::host::same_answers(*old(host), *final(host)),
        final(host).calls() == old(host).calls(),
        final(host).delivered() == old(host).delivered(),
        final(host).cache_writes() == old(host).cache_writes(),
        final(host).logged() == old(host).logged().push(
            LogV { message: encode_utf8(msg@), level: level as int, ident: ctx.ident as int },
        ),
{
    let bytes = str_to_vec(msg);
    host.log_msg(&bytes, level, ctx.ident);
}

/// Log an informational message: wire severity code 3.
pub fn info<H: Host>(host: &mut H, ctx: &InvocationContext, msg: &str)
    requires
        old(host).inv(),
    ensures
        final(host).inv(),
        crate::host::same_answers(*old(host), *final(host)),
        final(host).calls() == old(host).calls(),
        final(host).delivered() == old(host).delivered(),
        final(host).cache_writes() == old(host).cache_writes(),
        final(host).logged() == old(host).logged().push(
            LogV { message: encode_utf8(msg@), level: 3, ident: ctx.ident as int },
        ),
{
    log_at_level(host, ctx, msg, LOG_LEVEL_INFO)
}

/// Log a warning: wire severity code 2.
pub fn warn<H: Host>(host: &mut H, ctx: &InvocationContext, msg: &str)
    requires
        old(host).inv(),
    ensures
        final(host).inv(),
        crate::host::same_answers(*old(host), *final(host)),
        final(host).calls() == old(host).calls(),
        final(host).delivered() == old(host).delivered(),
        final(host).cache_writes() == old(host).cache_writes(),
        final(host).logged() == old(host).logged().push(
            LogV { message: encode_utf8(msg@), level: 2, ident: ctx.ident as int },
        ),
{
    log_at_level(host, ctx, msg, LOG_LEVEL_WARN)
}

/// Log an error: wire severity code 1.
pub fn error<H: Host>(host: &mut H, ctx: &InvocationContext, msg: &str)
    requires
        old(host).inv(),
    ensures
        final(host).inv(),
        crate::host::same_answers(*old(host), *final(host)),
        final(host).calls() == old(host).calls(),
        final(host).delivered() == old(host).delivered(),
        final(host).cache_writes() == old(host).cache_writes(),
        final(host).logged() == old(host).logged().push(
            LogV { message: encode_utf8(msg@), level: 1, ident: ctx.ident as int },
        ),
{
    log_at_level(host, ctx, msg, LOG_LEVEL_ERROR)
}

} // verus!
