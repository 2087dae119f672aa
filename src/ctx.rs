use vstd::prelude::*;
use crate::array_output::ArrayOutput;
use crate::error::{CryptoErrno, to_wire_size};
use crate::guest::{in_bounds, overlap, region, utf8_valid, written, read_bytes, read_name, check_writable, write_bytes, regions_overlap};
use crate::key_manager::KeyManagerSession;
use crate::options::{OptionsBag, OptionsType, OptionValue, OptionValueModel, RetainedBuffer};
use crate::registry::HandleTable;

verus! {

/// A host resource that a handle names.
pub enum Resource {
    Options(OptionsBag),
    ArrayOutput(ArrayOutput),
    KeyManager(KeyManagerSession),
}

/// What a resource is, as the boundary sees it.
pub ghost enum ResourceModel {
    Options { kind: OptionsType, values: Map<Seq<u8>, OptionValueModel> },
    ArrayOutput { pulled: Seq<u8>, remaining: Seq<u8> },
    KeyManager { options: Option<u32>, requests: Seq<(Seq<u8>, u64)> },
}

impl View for Resource {
    type V = ResourceModel;

    open spec fn view(&self) -> ResourceModel {
        match self {
            Resource::Options(b) => ResourceModel::Options { kind: b.spec_kind(), values: b@ },
            Resource::ArrayOutput(a) => ResourceModel::ArrayOutput { pulled: a.pulled(), remaining: a.remaining() },
            Resource::KeyManager(k) => ResourceModel::KeyManager { options: k.spec_options(), requests: k.requests() },
        }
    }
}

impl Resource {
    pub open spec fn wf(&self) -> bool {
        match self {
            Resource::Options(b) => b.wf(),
            Resource::ArrayOutput(a) => a.wf(),
            Resource::KeyManager(_) => true,
        }
    }
}

/// The error, if any, of reading a name from guest memory.
pub open spec fn name_error(mem: Seq<u8>, ptr: u32, len: u32) -> Option<CryptoErrno> {
    if !in_bounds(mem.len(), ptr, len) {
        Some(CryptoErrno::OutOfBounds)
    } else if !utf8_valid(region(mem, ptr, len)) {
        Some(CryptoErrno::InvalidEncoding)
    } else {
        None
    }
}

pub open spec fn is_options(m: Map<u32, ResourceModel>, h: u32) -> bool {
    m.contains_key(h) && m[h] is Options
}

pub open spec fn is_array_output(m: Map<u32, ResourceModel>, h: u32) -> bool {
    m.contains_key(h) && m[h] is ArrayOutput
}

pub open spec fn is_key_manager(m: Map<u32, ResourceModel>, h: u32) -> bool {
    m.contains_key(h) && m[h] is KeyManager
}

/// An options resource with one more name set.
pub open spec fn with_option(r: ResourceModel, name: Seq<u8>, v: OptionValueModel) -> ResourceModel {
    match r {
        ResourceModel::Options { kind, values } => ResourceModel::Options { kind, values: values.insert(name, v) },
        _ => r,
    }
}

/// The number of bytes a pull into a buffer of `buf_len` bytes takes from a
/// stream with `remaining` bytes left.
pub open spec fn pull_count(buf_len: u32, remaining: nat) -> nat {
    if buf_len < remaining { buf_len as nat } else { remaining }
}

/// An array output resource after `n` more bytes were pulled.
pub open spec fn after_pull(r: ResourceModel, n: nat) -> ResourceModel {
    match r {
        ResourceModel::ArrayOutput { pulled, remaining } => ResourceModel::ArrayOutput {
            pulled: pulled + remaining.take(n as int),
            remaining: remaining.skip(n as int),
        },
        _ => r,
    }
}

/// A key manager resource with one more forwarded invalidation.
pub open spec fn with_request(r: ResourceModel, key_id: Seq<u8>, version: u64) -> ResourceModel {
    match r {
        ResourceModel::KeyManager { options, requests } => ResourceModel::KeyManager {
            options,
            requests: requests.push((key_id, version)),
        },
        _ => r,
    }
}

/// A handle names what was opened under it until it is closed, whatever is
/// done meanwhile to other handles; once closed, it names nothing of any
/// kind, so every operation on it fails with an invalid handle.
pub proof fn lemma_handle_lifetime(
    before: Map<u32, ResourceModel>,
    opened: Map<u32, ResourceModel>,
    meanwhile: Map<u32, ResourceModel>,
    closed: Map<u32, ResourceModel>,
    h: u32,
    res: ResourceModel,
    other: u32,
    other_res: ResourceModel,
)
    requires
        opened == before.insert(h, res),
        other != h,
        meanwhile == opened.insert(other, other_res) || meanwhile == opened.remove(other),
        closed == meanwhile.remove(h),
    ensures
        meanwhile.contains_key(h),
        meanwhile[h] == res,
        !closed.contains_key(h),
        !is_options(closed, h),
        !is_array_output(closed, h),
        !is_key_manager(closed, h),
{
}

/// The host side of the crypto boundary: one table of handles shared by every
/// resource kind, so that a handle of one kind is never live as another.
pub struct WasiCryptoCtx {
    handles: HandleTable<Resource>,
}

impl View for WasiCryptoCtx {
    type V = Map<u32, ResourceModel>;

    closed spec fn view(&self) -> Map<u32, ResourceModel> {
        self.handles@.map_values(|r: Resource| r@)
    }
}

impl WasiCryptoCtx {
    pub closed spec fn wf(&self) -> bool {
        forall|h: u32| #[trigger] self.handles@.contains_key(h) ==> self.handles@[h].wf()
    }

    /// How many handles have been handed out; the next one is this plus one.
    pub closed spec fn issued(&self) -> nat {
        self.handles.issued()
    }

    pub fn new() -> (r: Self)
        ensures
            r.wf(),
            r@ == Map::<u32, ResourceModel>::empty(),
            r.issued() == 0,
    {
        let r = WasiCryptoCtx { handles: HandleTable::new() };
        assert(r@ =~= Map::<u32, ResourceModel>::empty());
        r
    }

    /// Registers a resource under the next handle.
    fn open_resource(&mut self, res: Resource) -> (r: Result<u32, CryptoErrno>)
        requires
            old(self).wf(),
            res.wf(),
        ensures
            final(self).wf(),
            old(self).issued() < u32::MAX ==> {
                &&& r == Ok::<u32, CryptoErrno>((old(self).issued() + 1) as u32)
                &&& !old(self)@.contains_key((old(self).issued() + 1) as u32)
                &&& final(self)@ == old(self)@.insert((old(self).issued() + 1) as u32, res@)
                &&& final(self).issued() == old(self).issued() + 1
            },
            old(self).issued() >= u32::MAX ==> {
                &&& r == Err::<u32, CryptoErrno>(CryptoErrno::ResourceExhausted)
                &&& final(self)@ == old(self)@
                &&& final(self).issued() == old(self).issued()
            },
    {
        let ghost g = res@;
        let r = self.handles.open(res);
        proof {
            if r is Ok {
                assert(self@ =~= old(self)@.insert((old(self).issued() + 1) as u32, g));
            } else {
                assert(self@ =~= old(self)@);
            }
        }
        r
    }

    /// Takes a live resource out of the table, to be put back with `put_back`.
    fn take(&mut self, h: u32) -> (r: Result<Resource, CryptoErrno>)
        requires
            old(self).wf(),
        ensures
            old(self)@.contains_key(h) ==> (r matches Ok(x) && x@ == old(self)@[h] && x.wf()),
            old(self)@.contains_key(h) ==> final(self)@ == old(self)@.remove(h),
            !old(self)@.contains_key(h) ==> r == Err::<Resource, CryptoErrno>(CryptoErrno::InvalidHandle),
            !old(self)@.contains_key(h) ==> final(self)@ == old(self)@,
            old(self)@.contains_key(h) ==> 1 <= h <= old(self).issued(),
            !final(self)@.contains_key(h),
            final(self).wf(),
            final(self).issued() == old(self).issued(),
    {
        proof {
            if self.handles@.contains_key(h) {
                self.handles.lemma_live_issued(h);
            }
        }
        let r = self.handles.close(h);
        assert(self@ =~= old(self)@.remove(h) || !old(self)@.contains_key(h));
        proof {
            if !old(self)@.contains_key(h) {
                assert(self@ =~= old(self)@);
            }
        }
        r
    }

    /// Puts a resource back under a handle that `take` retired.
    fn put_back(&mut self, h: u32, res: Resource)
        requires
            old(self).wf(),
            res.wf(),
            1 <= h <= old(self).issued(),
            !old(self)@.contains_key(h),
        ensures
            final(self).wf(),
            final(self)@ == old(self)@.insert(h, res@),
            final(self).issued() == old(self).issued(),
    {
        let ghost g = res@;
        self.handles.restore(h, res);
        assert(self@ =~= old(self)@.insert(h, g));
    }
    /// Opens an empty options bag of the given namespace.
    pub fn options_open(&mut self, options_type: OptionsType) -> (r: Result<u32, CryptoErrno>)
        requires
            old(self).wf(),
        ensures
            final(self).wf(),
            old(self).issued() < u32::MAX ==> {
                &&& r == Ok::<u32, CryptoErrno>((old(self).issued() + 1) as u32)
                &&& final(self).issued() == old(self).issued() + 1
                &&& !old(self)@.contains_key((old(self).issued() + 1) as u32)
                &&& final(self)@ == old(self)@.insert(
                    (old(self).issued() + 1) as u32,
                    ResourceModel::Options { kind: options_type, values: Map::empty() },
                )
            },
            old(self).issued() >= u32::MAX ==> {
                &&& r == Err::<u32, CryptoErrno>(CryptoErrno::ResourceExhausted)
                &&& final(self)@ == old(self)@
                &&& final(self).issued() == old(self).issued()
            },
    {
        self.open_resource(Resource::Options(OptionsBag::new(options_type)))
    }

    /// Closes an options handle, releasing any guest buffer it retained.
    pub fn options_close(&mut self, options_handle: u32) -> (r: Result<(), CryptoErrno>)
        requires
            old(self).wf(),
        ensures
            final(self).wf(),
            final(self).issued() == old(self).issued(),
            is_options(old(self)@, options_handle) ==> {
                &&& r is Ok
                &&& final(self)@ == old(self)@.remove(options_handle)
            },
            !is_options(old(self)@, options_handle) ==> {
                &&& r == Err::<(), CryptoErrno>(CryptoErrno::InvalidHandle)
                &&& final(self)@ == old(self)@
            },
    {
        let res = self.take(options_handle)?;
        match res {
            Resource::Options(_) => Ok(()),
            _ => {
                self.put_back(options_handle, res);
                assert(self@ =~= old(self)@);
                Err(CryptoErrno::InvalidHandle)
            },
        }
    }

    /// Sets a name of a live options bag; the state is unchanged on failure.
    fn set_option(&mut self, options_handle: u32, name: Vec<u8>, value: OptionValue) -> (r: Result<(), CryptoErrno>)
        requires
            old(self).wf(),
        ensures
            final(self).wf(),
            final(self).issued() == old(self).issued(),
            is_options(old(self)@, options_handle) ==> {
                &&& r is Ok
                &&& final(self)@ == old(self)@.insert(
                    options_handle,
                    with_option(old(self)@[options_handle], name@, value@),
                )
            },
            !is_options(old(self)@, options_handle) ==> {
                &&& r == Err::<(), CryptoErrno>(CryptoErrno::InvalidHandle)
                &&& final(self)@ == old(self)@
            },
    {
        let res = self.take(options_handle)?;
        match res {
            Resource::Options(mut bag) => {
                bag.set(name, value);
                self.put_back(options_handle, Resource::Options(bag));
                assert(self@ =~= old(self)@.insert(
                    options_handle,
                    with_option(old(self)@[options_handle], name@, value@),
                ));
                Ok(())
            },
            _ => {
                self.put_back(options_handle, res);
                assert(self@ =~= old(self)@);
                Err(CryptoErrno::InvalidHandle)
            },
        }
    }

    /// Sets a name to a copy of a guest byte region.  The name is read first,
    /// then the value, then the handle is looked up.
    pub fn options_set(
        &mut self,
        mem: &mut Vec<u8>,
        options_handle: u32,
        name_ptr: u32,
        name_len: u32,
        value_ptr: u32,
        value_len: u32,
    ) -> (r: Result<(), CryptoErrno>)
        requires
            old(self).wf(),
        ensures
            final(self).wf(),
            final(self).issued() == old(self).issued(),
            *final(mem) == *old(mem),
            name_error(old(mem)@, name_ptr, name_len) matches Some(e) ==> {
                &&& r == Err::<(), CryptoErrno>(e)
                &&& final(self)@ == old(self)@
            },
            name_error(old(mem)@, name_ptr, name_len) is None && !in_bounds(old(mem)@.len(), value_ptr, value_len) ==> {
                &&& r == Err::<(), CryptoErrno>(CryptoErrno::OutOfBounds)
                &&& final(self)@ == old(self)@
            },
            name_error(old(mem)@, name_ptr, name_len) is None && in_bounds(old(mem)@.len(), value_ptr, value_len)
                && !is_options(old(self)@, options_handle) ==> {
                &&& r == Err::<(), CryptoErrno>(CryptoErrno::InvalidHandle)
                &&& final(self)@ == old(self)@
            },
            name_error(old(mem)@, name_ptr, name_len) is None && in_bounds(old(mem)@.len(), value_ptr, value_len)
                && is_options(old(self)@, options_handle) ==> {
                &&& r is Ok
                &&& final(self)@ == old(self)@.insert(
                    options_handle,
                    with_option(
                        old(self)@[options_handle],
                        region(old(mem)@, name_ptr, name_len),
                        OptionValueModel::Bytes(region(old(mem)@, value_ptr, value_len)),
                    ),
                )
            },
    {
        let name = read_name(mem, name_ptr, name_len)?;
        let value = read_bytes(mem, value_ptr, value_len)?;
        self.set_option(options_handle, name, OptionValue::Bytes(value))
    }

    /// Lends the host a guest region for the lifetime of the options handle.
    /// The region is checked against guest memory now and must not overlap
    /// the name; after this call its validity is the guest's promise.
    pub fn options_set_guest_buffer(
        &mut self,
        mem: &mut Vec<u8>,
        options_handle: u32,
        name_ptr: u32,
        name_len: u32,
        buffer_ptr: u32,
        buffer_len: u32,
    ) -> (r: Result<(), CryptoErrno>)
        requires
            old(self).wf(),
        ensures
            final(self).wf(),
            final(self).issued() == old(self).issued(),
            *final(mem) == *old(mem),
            name_error(old(mem)@, name_ptr, name_len) matches Some(e) ==> {
                &&& r == Err::<(), CryptoErrno>(e)
                &&& final(self)@ == old(self)@
            },
            name_error(old(mem)@, name_ptr, name_len) is None && !in_bounds(old(mem)@.len(), buffer_ptr, buffer_len) ==> {
                &&& r == Err::<(), CryptoErrno>(CryptoErrno::OutOfBounds)
                &&& final(self)@ == old(self)@
            },
            name_error(old(mem)@, name_ptr, name_len) is None && in_bounds(old(mem)@.len(), buffer_ptr, buffer_len)
                && overlap(name_ptr, name_len, buffer_ptr, buffer_len) ==> {
                &&& r == Err::<(), CryptoErrno>(CryptoErrno::RegionOverlap)
                &&& final(self)@ == old(self)@
            },
            name_error(old(mem)@, name_ptr, name_len) is None && in_bounds(old(mem)@.len(), buffer_ptr, buffer_len)
                && !overlap(name_ptr, name_len, buffer_ptr, buffer_len) && !is_options(old(self)@, options_handle) ==> {
                &&& r == Err::<(), CryptoErrno>(CryptoErrno::InvalidHandle)
                &&& final(self)@ == old(self)@
            },
            name_error(old(mem)@, name_ptr, name_len) is None && in_bounds(old(mem)@.len(), buffer_ptr, buffer_len)
                && !overlap(name_ptr, name_len, buffer_ptr, buffer_len) && is_options(old(self)@, options_handle) ==> {
                &&& r is Ok
                &&& final(self)@ == old(self)@.insert(
                    options_handle,
                    with_option(
                        old(self)@[options_handle],
                        region(old(mem)@, name_ptr, name_len),
                        OptionValueModel::GuestBuffer(RetainedBuffer { ptr: buffer_ptr, len: buffer_len }),
                    ),
                )
            },
    {
        let name = read_name(mem, name_ptr, name_len)?;
        check_writable(mem, buffer_ptr, buffer_len)?;
        if regions_overlap(name_ptr, name_len, buffer_ptr, buffer_len) {
            return Err(CryptoErrno::RegionOverlap);
        }
        let buffer = RetainedBuffer { ptr: buffer_ptr, len: buffer_len };
        self.set_option(options_handle, name, OptionValue::GuestBuffer(buffer))
    }

    /// Sets a name to an integer.
    pub fn options_set_u64(&mut self, mem: &mut Vec<u8>, options_handle: u32, name_ptr: u32, name_len: u32, value: u64) -> (r: Result<(), CryptoErrno>)
        requires
            old(self).wf(),
        ensures
            final(self).wf(),
            final(self).issued() == old(self).issued(),
            *final(mem) == *old(mem),
            name_error(old(mem)@, name_ptr, name_len) matches Some(e) ==> {
                &&& r == Err::<(), CryptoErrno>(e)
                &&& final(self)@ == old(self)@
            },
            name_error(old(mem)@, name_ptr, name_len) is None && !is_options(old(self)@, options_handle) ==> {
                &&& r == Err::<(), CryptoErrno>(CryptoErrno::InvalidHandle)
                &&& final(self)@ == old(self)@
            },
            name_error(old(mem)@, name_ptr, name_len) is None && is_options(old(self)@, options_handle) ==> {
                &&& r is Ok
                &&& final(self)@ == old(self)@.insert(
                    options_handle,
                    with_option(old(self)@[options_handle], region(old(mem)@, name_ptr, name_len), OptionValueModel::U64(value)),
                )
            },
    {
        let name = read_name(mem, name_ptr, name_len)?;
        self.set_option(options_handle, name, OptionValue::U64(value))
    }
    /// Registers a host-computed result for the guest to pull.
    pub fn array_output_open(&mut self, data: Vec<u8>) -> (r: Result<u32, CryptoErrno>)
        requires
            old(self).wf(),
        ensures
            final(self).wf(),
            old(self).issued() < u32::MAX ==> {
                &&& r == Ok::<u32, CryptoErrno>((old(self).issued() + 1) as u32)
                &&& final(self).issued() == old(self).issued() + 1
                &&& !old(self)@.contains_key((old(self).issued() + 1) as u32)
                &&& final(self)@ == old(self)@.insert(
                    (old(self).issued() + 1) as u32,
                    ResourceModel::ArrayOutput { pulled: Seq::empty(), remaining: data@ },
                )
            },
            old(self).issued() >= u32::MAX ==> {
                &&& r == Err::<u32, CryptoErrno>(CryptoErrno::ResourceExhausted)
                &&& final(self)@ == old(self)@
                &&& final(self).issued() == old(self).issued()
            },
    {
        self.open_resource(Resource::ArrayOutput(ArrayOutput::new(data)))
    }

    /// The number of bytes of an array output not pulled yet, as a wire size.
    pub fn array_output_len(&self, array_output_handle: u32) -> (r: Result<u32, CryptoErrno>)
        requires
            self.wf(),
        ensures
            !is_array_output(self@, array_output_handle) ==> r == Err::<u32, CryptoErrno>(CryptoErrno::InvalidHandle),
            is_array_output(self@, array_output_handle) ==> {
                let n = self@[array_output_handle]->ArrayOutput_remaining.len();
                &&& n <= u32::MAX ==> r == Ok::<u32, CryptoErrno>(n as u32)
                &&& n > u32::MAX ==> r == Err::<u32, CryptoErrno>(CryptoErrno::Overflow)
            },
    {
        let res = self.handles.get(array_output_handle)?;
        match res {
            Resource::ArrayOutput(a) => to_wire_size(a.len()),
            _ => Err(CryptoErrno::InvalidHandle),
        }
    }

    /// Copies the next bytes of an array output into a guest buffer: as many
    /// as fit, or as are left.  The whole buffer is checked against guest
    /// memory before anything is copied or the cursor moves.
    pub fn array_output_pull(&mut self, mem: &mut Vec<u8>, array_output_handle: u32, buf_ptr: u32, buf_len: u32) -> (r: Result<u32, CryptoErrno>)
        requires
            old(self).wf(),
        ensures
            final(self).wf(),
            final(self).issued() == old(self).issued(),
            !in_bounds(old(mem)@.len(), buf_ptr, buf_len) ==> {
                &&& r == Err::<u32, CryptoErrno>(CryptoErrno::OutOfBounds)
                &&& final(self)@ == old(self)@
                &&& *final(mem) == *old(mem)
            },
            in_bounds(old(mem)@.len(), buf_ptr, buf_len) && !is_array_output(old(self)@, array_output_handle) ==> {
                &&& r == Err::<u32, CryptoErrno>(CryptoErrno::InvalidHandle)
                &&& final(self)@ == old(self)@
                &&& *final(mem) == *old(mem)
            },
            in_bounds(old(mem)@.len(), buf_ptr, buf_len) && is_array_output(old(self)@, array_output_handle) ==> {
                let rem = old(self)@[array_output_handle]->ArrayOutput_remaining;
                let n = pull_count(buf_len, rem.len());
                &&& r == Ok::<u32, CryptoErrno>(n as u32)
                &&& final(mem)@ == written(old(mem)@, buf_ptr, rem.take(n as int))
                &&& final(self)@ == old(self)@.insert(array_output_handle, after_pull(old(self)@[array_output_handle], n))
            },
    {
        check_writable(mem, buf_ptr, buf_len)?;
        let res = self.take(array_output_handle)?;
        match res {
            Resource::ArrayOutput(mut a) => {
                let chunk = a.pull(buf_len as usize);
                write_bytes(mem, buf_ptr, chunk.as_slice())?;
                let n = chunk.len() as u32;
                self.put_back(array_output_handle, Resource::ArrayOutput(a));
                assert(self@ =~= old(self)@.insert(
                    array_output_handle,
                    after_pull(old(self)@[array_output_handle], chunk@.len()),
                ));
                Ok(n)
            },
            _ => {
                self.put_back(array_output_handle, res);
                assert(self@ =~= old(self)@);
                Err(CryptoErrno::InvalidHandle)
            },
        }
    }

    /// Releases an array output, drained or not.
    pub fn array_output_close(&mut self, array_output_handle: u32) -> (r: Result<(), CryptoErrno>)
        requires
            old(self).wf(),
        ensures
            final(self).wf(),
            final(self).issued() == old(self).issued(),
            is_array_output(old(self)@, array_output_handle) ==> {
                &&& r is Ok
                &&& final(self)@ == old(self)@.remove(array_output_handle)
            },
            !is_array_output(old(self)@, array_output_handle) ==> {
                &&& r == Err::<(), CryptoErrno>(CryptoErrno::InvalidHandle)
                &&& final(self)@ == old(self)@
            },
    {
        let res = self.take(array_output_handle)?;
        match res {
            Resource::ArrayOutput(_) => Ok(()),
            _ => {
                self.put_back(array_output_handle, res);
                assert(self@ =~= old(self)@);
                Err(CryptoErrno::InvalidHandle)
            },
        }
    }

    /// Opens a key manager session, with a live options bag or with the
    /// store's defaults.
    pub fn key_manager_open(&mut self, options_handle: Option<u32>) -> (r: Result<u32, CryptoErrno>)
        requires
            old(self).wf(),
        ensures
            final(self).wf(),
            (options_handle matches Some(o) && !is_options(old(self)@, o)) ==> {
                &&& r == Err::<u32, CryptoErrno>(CryptoErrno::InvalidHandle)
                &&& final(self)@ == old(self)@
                &&& final(self).issued() == old(self).issued()
            },
            !(options_handle matches Some(o) && !is_options(old(self)@, o)) && old(self).issued() < u32::MAX ==> {
                &&& r == Ok::<u32, CryptoErrno>((old(self).issued() + 1) as u32)
                &&& final(self).issued() == old(self).issued() + 1
                &&& !old(self)@.contains_key((old(self).issued() + 1) as u32)
                &&& final(self)@ == old(self)@.insert(
                    (old(self).issued() + 1) as u32,
                    ResourceModel::KeyManager { options: options_handle, requests: Seq::empty() },
                )
            },
            !(options_handle matches Some(o) && !is_options(old(self)@, o)) && old(self).issued() >= u32::MAX ==> {
                &&& r == Err::<u32, CryptoErrno>(CryptoErrno::ResourceExhausted)
                &&& final(self)@ == old(self)@
                &&& final(self).issued() == old(self).issued()
            },
    {
        if let Some(o) = options_handle {
            match self.handles.get(o) {
                Ok(Resource::Options(_)) => {},
                _ => {
                    return Err(CryptoErrno::InvalidHandle);
                },
            }
        }
        self.open_resource(Resource::KeyManager(KeyManagerSession::new(options_handle)))
    }

    /// Closes a key manager session; keys it already handed out stay valid.
    pub fn key_manager_close(&mut self, key_manager_handle: u32) -> (r: Result<(), CryptoErrno>)
        requires
            old(self).wf(),
        ensures
            final(self).wf(),
            final(self).issued() == old(self).issued(),
            is_key_manager(old(self)@, key_manager_handle) ==> {
                &&& r is Ok
                &&& final(self)@ == old(self)@.remove(key_manager_handle)
            },
            !is_key_manager(old(self)@, key_manager_handle) ==> {
                &&& r == Err::<(), CryptoErrno>(CryptoErrno::InvalidHandle)
                &&& final(self)@ == old(self)@
            },
    {
        let res = self.take(key_manager_handle)?;
        match res {
            Resource::KeyManager(_) => Ok(()),
            _ => {
                self.put_back(key_manager_handle, res);
                assert(self@ =~= old(self)@);
                Err(CryptoErrno::InvalidHandle)
            },
        }
    }

    /// Forwards a request to invalidate a key: the identifier's bytes exactly
    /// as the guest wrote them, and the version as given.
    pub fn key_manager_invalidate(
        &mut self,
        mem: &mut Vec<u8>,
        key_manager_handle: u32,
        key_id_ptr: u32,
        key_id_len: u32,
        key_version: u64,
    ) -> (r: Result<(), CryptoErrno>)
        requires
            old(self).wf(),
        ensures
            final(self).wf(),
            final(self).issued() == old(self).issued(),
            *final(mem) == *old(mem),
            !in_bounds(old(mem)@.len(), key_id_ptr, key_id_len) ==> {
                &&& r == Err::<(), CryptoErrno>(CryptoErrno::OutOfBounds)
                &&& final(self)@ == old(self)@
            },
            in_bounds(old(mem)@.len(), key_id_ptr, key_id_len) && !is_key_manager(old(self)@, key_manager_handle) ==> {
                &&& r == Err::<(), CryptoErrno>(CryptoErrno::InvalidHandle)
                &&& final(self)@ == old(self)@
            },
            in_bounds(old(mem)@.len(), key_id_ptr, key_id_len) && is_key_manager(old(self)@, key_manager_handle) ==> {
                &&& r is Ok
                &&& final(self)@ == old(self)@.insert(
                    key_manager_handle,
                    with_request(old(self)@[key_manager_handle], region(old(mem)@, key_id_ptr, key_id_len), key_version),
                )
            },
    {
        let key_id = read_bytes(mem, key_id_ptr, key_id_len)?;
        let res = self.take(key_manager_handle)?;
        match res {
            Resource::KeyManager(mut km) => {
                let ghost id = key_id@;
                km.invalidate(key_id, key_version);
                self.put_back(key_manager_handle, Resource::KeyManager(km));
                assert(self@ =~= old(self)@.insert(
                    key_manager_handle,
                    with_request(old(self)@[key_manager_handle], id, key_version),
                ));
                Ok(())
            },
            _ => {
                self.put_back(key_manager_handle, res);
                assert(self@ =~= old(self)@);
                Err(CryptoErrno::InvalidHandle)
            },
        }
    }

    /// The options bag that a live options handle names.
    pub fn options(&self, options_handle: u32) -> (r: Result<&OptionsBag, CryptoErrno>)
        requires
            self.wf(),
        ensures
            is_options(self@, options_handle) ==> (r matches Ok(b) && b.wf()
                && self@[options_handle] == (ResourceModel::Options { kind: b.spec_kind(), values: b@ })),
            !is_options(self@, options_handle) ==> r == Err::<&OptionsBag, CryptoErrno>(CryptoErrno::InvalidHandle),
    {
        match self.handles.get(options_handle)? {
            Resource::Options(b) => Ok(b),
            _ => Err(CryptoErrno::InvalidHandle),
        }
    }

    /// The session that a live key manager handle names.
    pub fn key_manager(&self, key_manager_handle: u32) -> (r: Result<&KeyManagerSession, CryptoErrno>)
        requires
            self.wf(),
        ensures
            is_key_manager(self@, key_manager_handle) ==> (r matches Ok(k)
                && self@[key_manager_handle] == (ResourceModel::KeyManager { options: k.spec_options(), requests: k.requests() })),
            !is_key_manager(self@, key_manager_handle) ==> r == Err::<&KeyManagerSession, CryptoErrno>(CryptoErrno::InvalidHandle),
    {
        match self.handles.get(key_manager_handle)? {
            Resource::KeyManager(k) => Ok(k),
            _ => Err(CryptoErrno::InvalidHandle),
        }
    }
}

} // verus!
