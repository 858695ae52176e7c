//! Cache keys that identify a function by its signature rather than by the
//! values of its arguments.
use std::hash::{DefaultHasher, Hasher};
use vstd::prelude::*;
use vstd::std_specs::hash::DefaultHasherAdditionalSpecFns;
use vstd::string::StringSliceAdditionalSpecFns;

verus! {

/// How the key of a cached call is derived.
#[derive(Debug, Clone, Copy, PartialEq, Eq)]
pub enum KeyDerivation {
    /// From the function's name and the values of its arguments.
    Runtime,
    /// From the function's name, module and types alone, so that every call
    /// shares one entry.
    CompileTime,
}

impl Default for KeyDerivation {
    fn default() -> (r: Self)
        ensures
            r == KeyDerivation::Runtime,
    {
        KeyDerivation::Runtime
    }
}

/// The writes that hashing the texts `parts` in turn makes: the bytes of
/// each, then a `0xff` byte that ends it (no UTF-8 text holds that byte).
pub open spec fn part_writes(parts: Seq<Seq<u8>>) -> Seq<Seq<u8>>
    decreases parts.len(),
{
    if parts.len() == 0 {
        Seq::empty()
    } else {
        part_writes(parts.drop_last()).push(parts.last()).push(seq![0xffu8])
    }
}

/// The texts hashed for a compile-time key, in order: the function's name,
/// its module path, each parameter type's name, and the return type's name.
pub open spec fn signature_parts(
    fn_name: &str,
    mod_path: &str,
    param_type_names: Seq<&str>,
    return_type_name: &str,
) -> Seq<Seq<u8>> {
    seq![fn_name.spec_bytes(), mod_path.spec_bytes()]
        + param_type_names.map_values(|p: &str| p.spec_bytes())
        + seq![return_type_name.spec_bytes()]
}

/// Hashes one text the way `str`'s `Hash` does: its bytes, then `0xff`.
fn hash_part(h: &mut DefaultHasher, s: &str)
    ensures
        final(h)@ == old(h)@.push(s.spec_bytes()).push(seq![0xffu8]),
{
    h.write(s.as_bytes());
    let end: Vec<u8> = vec![0xffu8];
    h.write(end.as_slice());
    assert(end@ == seq![0xffu8]);
}

/// Generates a key for a function from its name, its module path and the
/// names of its parameter and return types, so that the key is the same for
/// every call of the function.
pub fn generate_compile_time_key(
    fn_name: &str,
    mod_path: &str,
    param_type_names: &[&str],
    return_type_name: &str,
) -> (r: u64)
    ensures
        r == DefaultHasher::spec_finish(
            part_writes(signature_parts(fn_name, mod_path, param_type_names@, return_type_name)),
        ),
{
    let ghost params = param_type_names@.map_values(|p: &str| p.spec_bytes());
    let mut hasher = DefaultHasher::new();
    hash_part(&mut hasher, fn_name);
    hash_part(&mut hasher, mod_path);
    proof {
        let head = seq![fn_name.spec_bytes(), mod_path.spec_bytes()];
        let first = seq![fn_name.spec_bytes()];
        assert(head + params.subrange(0, 0) =~= head);
        assert(head.drop_last() =~= first);
        assert(first.drop_last() =~= Seq::<Seq<u8>>::empty());
        assert(part_writes(Seq::<Seq<u8>>::empty()) == Seq::<Seq<u8>>::empty());
        assert(part_writes(first) == Seq::<Seq<u8>>::empty().push(fn_name.spec_bytes()).push(seq![0xffu8]));
        assert(part_writes(head) == part_writes(first).push(mod_path.spec_bytes()).push(seq![0xffu8]));
    }
    let mut i: usize = 0;
    while i < param_type_names.len()
        invariant
            0 <= i <= param_type_names@.len(),
            params == param_type_names@.map_values(|p: &str| p.spec_bytes()),
            hasher@ == part_writes(seq![fn_name.spec_bytes(), mod_path.spec_bytes()] + params.subrange(0, i as int)),
        decreases param_type_names@.len() - i,
    {
        let p = param_type_names[i];
        hash_part(&mut hasher, p);
        proof {
            let head = seq![fn_name.spec_bytes(), mod_path.spec_bytes()];
            assert((head + params.subrange(0, i + 1)).drop_last() =~= head + params.subrange(0, i as int));
            assert((head + params.subrange(0, i + 1)).last() == p.spec_bytes());
        }
        i += 1;
    }
    hash_part(&mut hasher, return_type_name);
    proof {
        let head = seq![fn_name.spec_bytes(), mod_path.spec_bytes()];
        let all = signature_parts(fn_name, mod_path, param_type_names@, return_type_name);
        assert(params.subrange(0, params.len() as int) =~= params);
        assert(all.drop_last() =~= head + params);
        assert(all.last() == return_type_name.spec_bytes());
    }
    hasher.finish()
}

} // verus!
