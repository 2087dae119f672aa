use vstd::prelude::*;

verus! {

/// Version discriminator that names no particular version.
pub const VERSION_UNSPECIFIED: u64 = 0xff00000000000000;

/// Version discriminator for the latest version of a key.
pub const VERSION_LATEST: u64 = 0xff00000000000001;

/// Version discriminator for every version of a key.
pub const VERSION_ALL: u64 = 0xff00000000000002;

/// A request to the key store to invalidate a key, as the guest made it.
#[derive(Debug)]
pub struct Invalidation {
    /// The key identifier, exactly as the guest wrote it.
    pub key_id: Vec<u8>,
    /// A version number, or one of the discriminators above.
    pub version: u64,
}

/// A key manager session: the options it was opened with and the requests it
/// forwards to the backing key store, oldest first.
pub struct KeyManagerSession {
    options: Option<u32>,
    invalidations: Vec<Invalidation>,
}

impl KeyManagerSession {
    /// The options handle the session was opened with; `None` stands for the
    /// store's defaults.
    pub closed spec fn spec_options(&self) -> Option<u32> {
        self.options
    }

    /// The forwarded invalidations, as identifier and version.
    pub closed spec fn requests(&self) -> Seq<(Seq<u8>, u64)> {
        self.invalidations@.map_values(|i: Invalidation| (i.key_id@, i.version))
    }

    pub fn new(options: Option<u32>) -> (r: Self)
        ensures
            r.spec_options() == options,
            r.requests() == Seq::<(Seq<u8>, u64)>::empty(),
    {
        let r = KeyManagerSession { options, invalidations: Vec::new() };
        assert(r.requests() =~= Seq::<(Seq<u8>, u64)>::empty());
        r
    }

    /// The options handle the session was opened with.
    pub fn options(&self) -> (r: Option<u32>)
        ensures
            r == self.spec_options(),
    {
        self.options
    }

    /// Forwards an invalidation; the identifier is passed on uninterpreted.
    pub fn invalidate(&mut self, key_id: Vec<u8>, version: u64)
        ensures
            final(self).spec_options() == old(self).spec_options(),
            final(self).requests() == old(self).requests().push((key_id@, version)),
    {
        let ghost prev = self.invalidations@;
        self.invalidations.push(Invalidation { key_id, version });
        assert(self.requests() =~= prev.map_values(|i: Invalidation| (i.key_id@, i.version)).push((key_id@, version)));
    }

    /// The forwarded invalidations, oldest first.
    pub fn invalidations(&self) -> (r: &Vec<Invalidation>)
        ensures
            r@.map_values(|i: Invalidation| (i.key_id@, i.version)) == self.requests(),
    {
        &self.invalidations
    }
}

} // verus!
