//! Connection bootstrap decisions.
//!
//! The endpoint path comes from the `REMOTE_APP_HOST_SOCKET_PATH`
//! environment variable; its absence is a configuration error naming the
//! variable. On Windows the endpoint is the named pipe `\\.\pipe\<name>`,
//! where `<name>` is the last component of the configured path. Builder
//! creation injects default `Args` and `ProjectDirectory` options when the
//! caller gave none. The shell reads the environment, the process
//! arguments and the working directory; the decisions stand here.

use vstd::prelude::*;

use crate::errors::AtsError;
use crate::json::{bytes_eq, Json, JsonV};
use crate::keys;

verus! {

/// The endpoint path configured in the environment: the variable's value
/// when set, a configuration error naming the variable when not.
pub fn socket_path_from_env(value: Option<Vec<u8>>) -> (r: Result<Vec<u8>, AtsError>)
    ensures
        match r {
            Ok(p) => value == Some(p),
            Err(e) => {
                &&& value is None
                &&& e is Config
                &&& e->Config_message@ == keys::env_not_set_msg()
            },
        },
{
    match value {
        Some(p) => Ok(p),
        None => Err(AtsError::Config { message: keys::env_not_set_msg_vec() }),
    }
}

/// True when `b` separates path components.
pub open spec fn is_sep(b: u8) -> bool {
    b == 47 || b == 92
}

/// The position of the last path separator in `s`, or `-1`.
pub open spec fn last_sep(s: Seq<u8>) -> int
    decreases s.len(),
{
    if s.len() == 0 {
        -1
    } else if is_sep(s[s.len() - 1]) {
        s.len() - 1
    } else {
        last_sep(s.drop_last())
    }
}

/// The last component of `s`: what follows its last separator.
pub open spec fn basename(s: Seq<u8>) -> Seq<u8> {
    s.skip(last_sep(s) + 1)
}

/// The named-pipe path for a configured socket path: `\\.\pipe\` followed
/// by the path's last component, or by the whole path when the last
/// component is empty.
pub open spec fn pipe_path(s: Seq<u8>) -> Seq<u8> {
    if basename(s).len() == 0 {
        keys::pipe_path_prefix() + s
    } else {
        keys::pipe_path_prefix() + basename(s)
    }
}

/// Positions past the last separator hold no separator.
proof fn lemma_last_sep(s: Seq<u8>)
    ensures
        -1 <= last_sep(s) < s.len(),
        forall|k: int| last_sep(s) < k < s.len() ==> !is_sep(#[trigger] s[k]),
        last_sep(s) >= 0 ==> is_sep(s[last_sep(s)]),
    decreases s.len(),
{
    if s.len() > 0 && !is_sep(s[s.len() - 1]) {
        lemma_last_sep(s.drop_last());
        assert forall|k: int| last_sep(s) < k < s.len() implies !is_sep(#[trigger] s[k]) by {
            if k < s.len() - 1 {
                assert(s.drop_last()[k] == s[k]);
                assert(!is_sep(s.drop_last()[k]));
            }
        }
        if last_sep(s) >= 0 {
            assert(s.drop_last()[last_sep(s)] == s[last_sep(s)]);
        }
    }
}

/// Derives the named-pipe path for a configured socket path.
pub fn pipe_path_for(socket_path: &Vec<u8>) -> (r: Vec<u8>)
    ensures
        r@ == pipe_path(socket_path@),
{
    let n = socket_path.len();
    // find the position after the last separator
    let mut start: usize = n;
    while start > 0
        invariant
            0 <= start <= n,
            n == socket_path@.len(),
            forall|k: int| start <= k < n ==> !is_sep(#[trigger] socket_path@[k]),
        ensures
            0 <= start <= n,
            n == socket_path@.len(),
            forall|k: int| start <= k < n ==> !is_sep(#[trigger] socket_path@[k]),
            start > 0 ==> is_sep(socket_path@[start - 1]),
        decreases start,
    {
        let b = socket_path[start - 1];
        if b == 47 || b == 92 {
            break;
        }
        start = start - 1;
    }
    proof {
        lemma_last_sep(socket_path@);
        if start > 0 {
            assert(is_sep(socket_path@[start - 1]));
            assert(last_sep(socket_path@) == start - 1) by {
                if last_sep(socket_path@) > start - 1 {
                    assert(!is_sep(socket_path@[last_sep(socket_path@)]));
                } else if last_sep(socket_path@) < start - 1 {
                    assert(!is_sep(socket_path@[start - 1]));
                }
            }
        } else {
            assert(last_sep(socket_path@) == -1) by {
                if last_sep(socket_path@) >= 0 {
                    assert(!is_sep(socket_path@[last_sep(socket_path@)]));
                }
            }
        }
    }
    let mut out = keys::pipe_path_prefix_vec();
    let from = if start == n {
        // empty last component: fall back to the whole path
        0
    } else {
        start
    };
    let ghost head = out@;
    let mut i: usize = from;
    while i < n
        invariant
            from <= i <= n,
            n == socket_path@.len(),
            out@ == head + socket_path@.subrange(from as int, i as int),
        decreases n - i,
    {
        out.push(socket_path[i]);
        assert(out@ =~= head + socket_path@.subrange(from as int, i as int + 1));
        i = i + 1;
    }
    proof {
        assert(basename(socket_path@) =~= socket_path@.subrange(
            last_sep(socket_path@) + 1,
            n as int,
        ));
        if start == n {
            assert(socket_path@.subrange(0, n as int) =~= socket_path@);
        }
        assert(out@ =~= pipe_path(socket_path@));
    }
    out
}

/// The view of an argument-object field list.
pub open spec fn fields_v(fields: Seq<(Vec<u8>, Json)>) -> Seq<(Seq<u8>, JsonV)> {
    Seq::new(
        fields.len(),
        |i: int|
            if 0 <= i < fields.len() {
                (fields[i].0@, fields[i].1.jv())
            } else {
                (Seq::<u8>::empty(), JsonV::Null)
            },
    )
}

/// Whether some field of `fields` is named `key`.
pub open spec fn fields_have_key(fields: Seq<(Seq<u8>, JsonV)>, key: Seq<u8>) -> bool {
    exists|i: int| 0 <= i < fields.len() && (#[trigger] fields[i]).0 == key
}

/// Whether some field of `fields` is named `key`.
fn has_field(fields: &Vec<(Vec<u8>, Json)>, key: &Vec<u8>) -> (r: bool)
    ensures
        r == fields_have_key(fields_v(fields@), key@),
{
    let n = fields.len();
    let mut i: usize = 0;
    while i < n
        invariant
            0 <= i <= n,
            n == fields@.len(),
            forall|m: int| 0 <= m < i ==> (#[trigger] fields_v(fields@)[m]).0 != key@,
        decreases n - i,
    {
        let entry = &fields[i];
        if bytes_eq(&entry.0, key) {
            assert(fields_v(fields@)[i as int].0 == key@);
            return true;
        }
        assert(fields_v(fields@)[i as int].0 != key@);
        i = i + 1;
    }
    false
}

/// Completes builder options with their defaults: appends an `Args` field
/// carrying `args` when the caller gave none, then a `ProjectDirectory`
/// field carrying `project_directory` when the caller gave none and the
/// directory is known. Fields the caller gave stand unchanged.
pub fn builder_options_with_defaults(
    options: Vec<(Vec<u8>, Json)>,
    args: Json,
    project_directory: Option<Json>,
) -> (r: Vec<(Vec<u8>, Json)>)
    ensures
        ({
            let with_args = if fields_have_key(fields_v(options@), keys::args_field()) {
                fields_v(options@)
            } else {
                fields_v(options@).push((keys::args_field(), args.jv()))
            };
            let complete = if fields_have_key(with_args, keys::project_directory_field()) {
                with_args
            } else {
                match project_directory {
                    Some(d) => with_args.push((keys::project_directory_field(), d.jv())),
                    None => with_args,
                }
            };
            fields_v(r@) == complete
        }),
{
    let mut options = options;
    let ghost before = fields_v(options@);
    let had_args = has_field(&options, &keys::args_field_vec());
    if !had_args {
        options.push((keys::args_field_vec(), args));
        assert(fields_v(options@) =~= before.push((keys::args_field(), args.jv())));
    }
    let ghost with_args = fields_v(options@);
    proof {
        if !had_args {
            assert forall|m: int| 0 <= m < with_args.len() - 1 implies (
            #[trigger] with_args[m]) == before[m] by {}
            assert(fields_have_key(with_args, keys::project_directory_field())
                == fields_have_key(before, keys::project_directory_field())) by {
                if fields_have_key(before, keys::project_directory_field()) {
                    let w = choose|i: int|
                        0 <= i < before.len() && (#[trigger] before[i]).0
                            == keys::project_directory_field();
                    assert(with_args[w].0 == keys::project_directory_field());
                }
                if fields_have_key(with_args, keys::project_directory_field()) {
                    let w = choose|i: int|
                        0 <= i < with_args.len() && (#[trigger] with_args[i]).0
                            == keys::project_directory_field();
                    assert(keys::args_field().len() != keys::project_directory_field().len());
                    assert(w < before.len());
                    assert(before[w].0 == keys::project_directory_field());
                }
            }
        }
    }
    let had_dir = has_field(&options, &keys::project_directory_field_vec());
    if !had_dir {
        match project_directory {
            Some(d) => {
                options.push((keys::project_directory_field_vec(), d));
                assert(fields_v(options@) =~= with_args.push(
                    (keys::project_directory_field(), d.jv()),
                ));
            },
            None => {},
        }
    }
    options
}

} // verus!
