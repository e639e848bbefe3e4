//! The greeting handler.
//!
//! `greet` answers with `Hello {name}`, where `name` is the captured path
//! parameter of that name, or `World` when the route has none.  The raw
//! bytes of the path segment are used as captured; what a percent-encoded
//! or empty segment means is left to the client.

use vstd::prelude::*;
use crate::http::{Response, append_bytes, STATUS_OK};
use crate::urlencoded::first_val;

verus! {

/// The name of the captured path parameter.
pub open spec fn name_param() -> Seq<u8> {
    seq![110u8, 97u8, 109u8, 101u8]
}

/// The default for an absent `name` parameter: `World`.
pub open spec fn default_name() -> Seq<u8> {
    seq![87u8, 111u8, 114u8, 108u8, 100u8]
}

/// The greeting prefix: `Hello `.
pub open spec fn hello_prefix() -> Seq<u8> {
    seq![72u8, 101u8, 108u8, 108u8, 111u8, 32u8]
}

/// The body `greet` answers for a list of captured parameters.
pub open spec fn greet_body(params: Seq<(Seq<u8>, Seq<u8>)>) -> Seq<u8> {
    match first_val(params, name_param()) {
        Some(n) => hello_prefix() + n,
        None => hello_prefix() + default_name(),
    }
}

/// Whether `k` is the parameter name `name`.
fn is_name_param(k: &Vec<u8>) -> (r: bool)
    ensures
        r == (k@ == name_param()),
{
    if k.len() == 4 && k[0] == 110 && k[1] == 97 && k[2] == 109 && k[3] == 101 {
        proof {
            assert(k@ =~= name_param());
        }
        true
    } else {
        false
    }
}

/// The greeting: `Hello {name}` with the first captured `name` parameter,
/// `Hello World` without one.
pub fn greet(params: &Vec<(Vec<u8>, Vec<u8>)>) -> (r: Response)
    ensures
        r.status == STATUS_OK,
        r.body@ == greet_body(params@.map_values(|kv: (Vec<u8>, Vec<u8>)| (kv.0@, kv.1@))),
{
    let ghost pv = params@.map_values(|kv: (Vec<u8>, Vec<u8>)| (kv.0@, kv.1@));
    let mut body: Vec<u8> = Vec::new();
    body.push(72);
    body.push(101);
    body.push(108);
    body.push(108);
    body.push(111);
    body.push(32);
    proof {
        assert(body@ =~= hello_prefix());
    }
    let mut i: usize = 0;
    proof {
        assert(pv.take(0) =~= Seq::<(Seq<u8>, Seq<u8>)>::empty());
    }
    while i < params.len()
        invariant
            i <= params.len(),
            body@ == hello_prefix(),
            pv == params@.map_values(|kv: (Vec<u8>, Vec<u8>)| (kv.0@, kv.1@)),
            pv.len() == params@.len(),
            first_val(pv.take(i as int), name_param()) is None,
        decreases params.len() - i,
    {
        proof {
            assert(pv.take(i as int + 1).drop_last() =~= pv.take(i as int));
            assert(pv.take(i as int + 1).last() == pv[i as int]);
            assert(pv[i as int] == (params@[i as int].0@, params@[i as int].1@));
        }
        if is_name_param(&params[i].0) {
            proof {
                assert(first_val(pv.take(i as int + 1), name_param()) == Some(pv[i as int].1));
                crate::urlencoded::lemma_first_val_extend(pv, name_param(), i as int + 1);
            }
            append_bytes(&mut body, &params[i].1);
            return Response::ok_with(body);
        }
        i = i + 1;
    }
    proof {
        assert(pv.take(i as int) =~= pv);
    }
    let mut world: Vec<u8> = Vec::new();
    world.push(87);
    world.push(111);
    world.push(114);
    world.push(108);
    world.push(100);
    proof {
        assert(world@ =~= default_name());
    }
    append_bytes(&mut body, &world);
    Response::ok_with(body)
}

} // verus!
