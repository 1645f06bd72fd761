//! The in-memory model of an application bundle — the manifest's application
//! name and the named resources that make up the payload — together with its
//! canonical encoding: a deterministic, length-prefixed byte form that the
//! content-derived identifier is computed from.

use vstd::prelude::*;

verus! {

/// One resource of a bundle's payload: a name and its raw bytes.
pub struct Resource {
    pub path: Vec<u8>,
    pub bytes: Vec<u8>,
}

/// An application bundle as the installer sees it: the manifest's application
/// name and the payload resources, in the order the bundle lists them.
pub struct Bundle {
    /// The application name the manifest declares.
    pub app_name: Vec<u8>,
    /// The payload: named resources, order preserved.
    pub resources: Vec<Resource>,
}

impl Bundle {
    /// The resources as a sequence of (path, bytes) pairs.
    pub open spec fn spec_resources(&self) -> Seq<(Seq<u8>, Seq<u8>)> {
        self.resources@.map_values(|r: Resource| (r.path@, r.bytes@))
    }

    /// A bundle can be canonically encoded when its manifest is well formed:
    /// the application name must not be empty.
    pub open spec fn spec_well_formed(&self) -> bool {
        self.app_name@.len() > 0
    }

    /// The canonical encoding of this bundle.
    pub open spec fn canon(&self) -> Seq<u8> {
        canonical_bytes(self.app_name@, self.spec_resources())
    }

    /// Whether the manifest is well formed (the application name is not
    /// empty); only such a bundle can be canonically encoded.
    pub fn well_formed(&self) -> (ok: bool)
        ensures
            ok == self.spec_well_formed(),
    {
        self.app_name.len() > 0
    }
}

/// The eight-byte big-endian rendering of a length.
pub open spec fn len_bytes(n: u64) -> Seq<u8> {
    seq![
        ((n >> 56) & 0xff) as u8,
        ((n >> 48) & 0xff) as u8,
        ((n >> 40) & 0xff) as u8,
        ((n >> 32) & 0xff) as u8,
        ((n >> 24) & 0xff) as u8,
        ((n >> 16) & 0xff) as u8,
        ((n >> 8) & 0xff) as u8,
        (n & 0xff) as u8,
    ]
}

/// The canonical encoding of one resource: the length-prefixed path followed
/// by the length-prefixed bytes.
pub open spec fn canon_resource(path: Seq<u8>, bytes: Seq<u8>) -> Seq<u8> {
    len_bytes(path.len() as u64) + path + len_bytes(bytes.len() as u64) + bytes
}

/// The canonical encoding of a resource list: each resource in order.
pub open spec fn canon_resources(resources: Seq<(Seq<u8>, Seq<u8>)>) -> Seq<u8>
    decreases resources.len(),
{
    if resources.len() == 0 {
        Seq::empty()
    } else {
        canon_resources(resources.drop_last()) + canon_resource(
            resources.last().0,
            resources.last().1,
        )
    }
}

/// The canonical encoding of a bundle: the length-prefixed application name,
/// the resource count, then each resource in order, every field length
/// prefixed. The encoding is a function of the bundle's content alone.
pub open spec fn canonical_bytes(app_name: Seq<u8>, resources: Seq<(Seq<u8>, Seq<u8>)>) -> Seq<u8> {
    len_bytes(app_name.len() as u64) + app_name + len_bytes(resources.len() as u64)
        + canon_resources(resources)
}

/// Append the eight-byte big-endian rendering of `n`.
fn push_len(out: &mut Vec<u8>, n: u64)
    ensures
        final(out)@ == old(out)@ + len_bytes(n),
{
    proof {
        assert((n >> 56) & 0xff < 256 && (n >> 48) & 0xff < 256 && (n >> 40) & 0xff < 256 && (n
            >> 32) & 0xff < 256 && (n >> 24) & 0xff < 256 && (n >> 16) & 0xff < 256 && (n >> 8)
            & 0xff < 256 && n & 0xff < 256) by (bit_vector);
    }
    out.push(((n >> 56) & 0xff) as u8);
    out.push(((n >> 48) & 0xff) as u8);
    out.push(((n >> 40) & 0xff) as u8);
    out.push(((n >> 32) & 0xff) as u8);
    out.push(((n >> 24) & 0xff) as u8);
    out.push(((n >> 16) & 0xff) as u8);
    out.push(((n >> 8) & 0xff) as u8);
    out.push((n & 0xff) as u8);
    proof {
        assert(out@ =~= old(out)@ + len_bytes(n));
    }
}

/// Append a byte field.
fn push_bytes(out: &mut Vec<u8>, bytes: &Vec<u8>)
    ensures
        final(out)@ == old(out)@ + bytes@,
{
    let mut i: usize = 0;
    while i < bytes.len()
        invariant
            i <= bytes.len(),
            out@ =~= old(out)@ + bytes@.subrange(0, i as int),
        decreases bytes.len() - i,
    {
        out.push(bytes[i]);
        proof {
            assert(out@ =~= old(out)@ + bytes@.subrange(0, i + 1 as int));
        }
        i = i + 1;
    }
    proof {
        assert(out@ =~= old(out)@ + bytes@);
    }
}

/// The canonical encoding of a bundle, as bytes.
pub fn canonical_encoding(bundle: &Bundle) -> (out: Vec<u8>)
    ensures
        out@ == bundle.canon(),
{
    let mut out: Vec<u8> = Vec::new();
    push_len(&mut out, bundle.app_name.len() as u64);
    push_bytes(&mut out, &bundle.app_name);
    push_len(&mut out, bundle.resources.len() as u64);
    let ghost header = out@;
    let mut i: usize = 0;
    while i < bundle.resources.len()
        invariant
            i <= bundle.resources.len(),
            out@ == header + canon_resources(bundle.spec_resources().take(i as int)),
            header == len_bytes(bundle.app_name@.len() as u64) + bundle.app_name@ + len_bytes(
                bundle.resources@.len() as u64,
            ),
        decreases bundle.resources.len() - i,
    {
        let resource = &bundle.resources[i];
        push_len(&mut out, resource.path.len() as u64);
        push_bytes(&mut out, &resource.path);
        push_len(&mut out, resource.bytes.len() as u64);
        push_bytes(&mut out, &resource.bytes);
        proof {
            let rs = bundle.spec_resources();
            assert(rs.take(i + 1).drop_last() =~= rs.take(i as int));
            assert(rs.take(i + 1).last() == rs[i as int]);
            assert(out@ =~= header + canon_resources(rs.take(i + 1)));
        }
        i = i + 1;
    }
    proof {
        assert(bundle.spec_resources().take(bundle.resources@.len() as int) =~= bundle
            .spec_resources());
        assert(out@ =~= bundle.canon());
    }
    out
}

} // verus!
