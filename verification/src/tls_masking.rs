//! Disguising peer traffic as TLS records.
use vstd::prelude::*;

verus! {

/// Errors raised by the TLS masking layer.
#[derive(Debug)]
pub enum TlsError {
    HandshakeFailed(String),
    CertificateError(String),
    ConnectionError(String),
}

/// The record header put in front of masked data.
pub open spec fn tls_header() -> Seq<u8> {
    seq![0x16u8, 0x03u8, 0x03u8, 0x00u8, 0x05u8, 0x01u8, 0x00u8, 0x00u8, 0x01u8, 0x01u8]
}

/// The record trailer put after masked data.
pub open spec fn tls_footer() -> Seq<u8> {
    seq![0x17u8, 0x03u8, 0x03u8, 0x00u8, 0x05u8, 0x00u8, 0x00u8, 0x00u8, 0x00u8, 0x01u8]
}

/// The fixed self-signed certificate stub that masking presents.
pub open spec fn fake_certificate() -> Seq<u8> {
    seq![
        0x30u8, 0x82u8, 0x01u8, 0x00u8, 0x30u8, 0x81u8, 0xB2u8, 0x02u8, 0x01u8, 0x01u8, 0x30u8, 0x0Du8, 0x06u8, 0x09u8,
        0x2Au8, 0x86u8, 0x48u8, 0x86u8, 0xF7u8, 0x0Du8, 0x01u8, 0x01u8, 0x0Bu8, 0x05u8, 0x00u8, 0x30u8, 0x1Au8, 0x31u8,
        0x18u8, 0x30u8, 0x16u8, 0x06u8, 0x03u8, 0x55u8, 0x04u8, 0x03u8, 0x0Cu8, 0x0Fu8, 0x65u8, 0x78u8, 0x61u8, 0x6Du8,
        0x70u8, 0x6Cu8, 0x65u8, 0x2Eu8, 0x63u8, 0x6Fu8, 0x6Du8,
    ]
}

/// What wrapping does to `data` when masking is `enabled` or not.
pub open spec fn spec_wrap(enabled: bool, data: Seq<u8>) -> Seq<u8> {
    if enabled { tls_header() + data + tls_footer() } else { data }
}

/// What unwrapping gives back for `data`: `None` stands for the "Data too short" error.
pub open spec fn spec_unwrap(enabled: bool, data: Seq<u8>) -> Option<Seq<u8>> {
    if !enabled {
        Some(data)
    } else if data.len() < 20 {
        None
    } else {
        Some(data.subrange(10, data.len() - 10))
    }
}

/// The client-hello record that masking sends first.
pub open spec fn fake_handshake() -> Seq<u8> {
    seq![0x16u8, 0x03u8, 0x03u8, 0x00u8, 0x86u8, 0x01u8, 0x00u8, 0x00u8, 0x82u8, 0x03u8, 0x03u8]
        + Seq::new(32, |i: int| (i as u8) ^ 0xAAu8)
        + seq![0x00u8, 0x00u8, 0x08u8, 0x00u8, 0x2Fu8, 0x00u8, 0x35u8, 0x00u8, 0x0Au8, 0x00u8, 0x39u8, 0x01u8, 0x00u8]
}

/// A big-endian 16-bit number from two bytes.
pub open spec fn be_u16(hi: u8, lo: u8) -> int {
    hi * 256 + lo
}

/// Whether `data` starts with a plausible TLS record header whose body is present.
pub open spec fn spec_valid_tls_frame(data: Seq<u8>) -> bool {
    &&& data.len() >= 5
    &&& 0x14 <= data[0] <= 0x18
    &&& (be_u16(data[1], data[2]) == 0x0301 || be_u16(data[1], data[2]) == 0x0302
        || be_u16(data[1], data[2]) == 0x0303)
    &&& data.len() >= 5 + be_u16(data[3], data[4])
}

/// Appends the bytes of `s` to `v`.
pub fn append_bytes(v: &mut Vec<u8>, s: &[u8])
    ensures
        final(v)@ == old(v)@ + s@,
{
    let ghost start = v@;
    let mut i: usize = 0;
    while i < s.len()
        invariant
            i <= s@.len(),
            v@ == start + s@.subrange(0, i as int),
        decreases s@.len() - i,
    {
        v.push(s[i]);
        i = i + 1;
        assert(v@ =~= start + s@.subrange(0, i as int));
    }
    assert(s@.subrange(0, s@.len() as int) =~= s@);
}

/// Copies the bytes `data[from..to]`.
pub fn copy_range(data: &[u8], from: usize, to: usize) -> (res: Vec<u8>)
    requires
        from <= to <= data@.len(),
    ensures
        res@ == data@.subrange(from as int, to as int),
{
    let mut res: Vec<u8> = Vec::new();
    let mut i: usize = from;
    while i < to
        invariant
            from <= i <= to,
            to <= data@.len(),
            res@ == data@.subrange(from as int, i as int),
        decreases to - i,
    {
        res.push(data[i]);
        i = i + 1;
        assert(res@ =~= data@.subrange(from as int, i as int));
    }
    res
}

/// Makes connections look like TLS traffic.
pub struct TlsMasking {
    enabled: bool,
    fake_certificates: Vec<Vec<u8>>,
}

impl TlsMasking {
    /// Whether masking is switched on.
    pub closed spec fn spec_enabled(&self) -> bool {
        self.enabled
    }

    /// The certificates generated so far.
    pub closed spec fn spec_certificates(&self) -> Seq<Seq<u8>> {
        self.fake_certificates@.map_values(|c: Vec<u8>| c@)
    }

    /// A masking layer that is switched off and holds no certificates.
    pub fn new() -> (res: Self)
        ensures
            !res.spec_enabled(),
            res.spec_certificates() == Seq::<Seq<u8>>::empty(),
    {
        let res = TlsMasking { enabled: false, fake_certificates: Vec::new() };
        assert(res.spec_certificates() =~= Seq::<Seq<u8>>::empty());
        res
    }

    /// Switches masking on and generates one more fake certificate.
    pub fn enable(&mut self) -> (res: Result<(), TlsError>)
        ensures
            res is Ok,
            final(self).spec_enabled(),
            final(self).spec_certificates() == old(self).spec_certificates().push(fake_certificate()),
    {
        self.enabled = true;
        let r = self.generate_fake_certificates();
        match r {
            Ok(()) => Ok(()),
            Err(e) => Err(e),
        }
    }

    /// Switches masking off and forgets all certificates.
    pub fn disable(&mut self)
        ensures
            !final(self).spec_enabled(),
            final(self).spec_certificates() == Seq::<Seq<u8>>::empty(),
    {
        self.enabled = false;
        self.fake_certificates.clear();
        assert(self.spec_certificates() =~= Seq::<Seq<u8>>::empty());
    }

    /// Whether masking is switched on.
    pub fn is_enabled(&self) -> (res: bool)
        ensures
            res == self.spec_enabled(),
    {
        self.enabled
    }

    /// Wraps `data` in a TLS record header and trailer when masking is on.
    pub fn wrap_connection(&self, data: &[u8]) -> (res: Result<Vec<u8>, TlsError>)
        ensures
            res matches Ok(v) && v@ == spec_wrap(self.spec_enabled(), data@),
    {
        if !self.enabled {
            let mut out: Vec<u8> = Vec::new();
            append_bytes(&mut out, data);
            assert(out@ =~= data@);
            return Ok(out);
        }
        let mut wrapped: Vec<u8> = Vec::new();
        let header = self.create_tls_header();
        append_bytes(&mut wrapped, header.as_slice());
        append_bytes(&mut wrapped, data);
        let footer = self.create_tls_footer();
        append_bytes(&mut wrapped, footer.as_slice());
        assert(wrapped@ =~= tls_header() + data@ + tls_footer());
        Ok(wrapped)
    }

    /// Strips the TLS record header and trailer when masking is on.
    pub fn unwrap_connection(&self, data: &[u8]) -> (res: Result<Vec<u8>, TlsError>)
        ensures
            spec_unwrap(self.spec_enabled(), data@) matches Some(p) ==> (res matches Ok(v) && v@ == p),
            spec_unwrap(self.spec_enabled(), data@) is None ==> (res matches Err(TlsError::ConnectionError(m))
                && m@ == "Data too short"@),
    {
        if !self.enabled {
            let out = copy_range(data, 0, data.len());
            assert(out@ =~= data@);
            return Ok(out);
        }
        if data.len() < 20 {
            return Err(TlsError::ConnectionError("Data too short".to_string()));
        }
        let header_size: usize = 10;
        let footer_size: usize = 10;
        let payload = copy_range(data, header_size, data.len() - footer_size);
        Ok(payload)
    }

    fn generate_fake_certificates(&mut self) -> (res: Result<(), TlsError>)
        ensures
            res is Ok,
            final(self).spec_enabled() == old(self).spec_enabled(),
            final(self).spec_certificates() == old(self).spec_certificates().push(fake_certificate()),
    {
        let fake_cert: Vec<u8> = vec![
            0x30, 0x82, 0x01, 0x00, 0x30, 0x81, 0xB2, 0x02, 0x01, 0x01, 0x30, 0x0D, 0x06, 0x09,
            0x2A, 0x86, 0x48, 0x86, 0xF7, 0x0D, 0x01, 0x01, 0x0B, 0x05, 0x00, 0x30, 0x1A, 0x31,
            0x18, 0x30, 0x16, 0x06, 0x03, 0x55, 0x04, 0x03, 0x0C, 0x0F, 0x65, 0x78, 0x61, 0x6D,
            0x70, 0x6C, 0x65, 0x2E, 0x63, 0x6F, 0x6D,
        ];
        assert(fake_cert@ =~= fake_certificate());
        self.fake_certificates.push(fake_cert);
        assert(self.spec_certificates() =~= old(self).spec_certificates().push(fake_certificate()));
        Ok(())
    }

    fn create_tls_header(&self) -> (res: Vec<u8>)
        ensures
            res@ == tls_header(),
    {
        let v: Vec<u8> = vec![0x16, 0x03, 0x03, 0x00, 0x05, 0x01, 0x00, 0x00, 0x01, 0x01];
        assert(v@ =~= tls_header());
        v
    }

    fn create_tls_footer(&self) -> (res: Vec<u8>)
        ensures
            res@ == tls_footer(),
    {
        let v: Vec<u8> = vec![0x17, 0x03, 0x03, 0x00, 0x05, 0x00, 0x00, 0x00, 0x00, 0x01];
        assert(v@ =~= tls_footer());
        v
    }

    /// The fixed client-hello record that opens a masked connection.
    pub fn create_fake_handshake(&self) -> (res: Vec<u8>)
        ensures
            res@ == fake_handshake(),
    {
        let mut handshake: Vec<u8> = Vec::new();
        append_bytes(&mut handshake, &[0x16u8, 0x03, 0x03, 0x00, 0x86]);
        append_bytes(&mut handshake, &[0x01u8, 0x00, 0x00, 0x82]);
        append_bytes(&mut handshake, &[0x03u8, 0x03]);
        let ghost prefix = handshake@;
        let mut i: usize = 0;
        while i < 32
            invariant
                i <= 32,
                handshake@ == prefix + Seq::new(i as nat, |k: int| (k as u8) ^ 0xAAu8),
            decreases 32 - i,
        {
            let b: u8 = (i as u8) ^ 0xAA;
            handshake.push(b);
            i = i + 1;
            assert(handshake@ =~= prefix + Seq::new(i as nat, |k: int| (k as u8) ^ 0xAAu8));
        }
        append_bytes(&mut handshake, &[0x00u8]);
        append_bytes(&mut handshake, &[0x00u8, 0x08]);
        append_bytes(&mut handshake, &[0x00u8, 0x2F, 0x00, 0x35, 0x00, 0x0A, 0x00, 0x39]);
        append_bytes(&mut handshake, &[0x01u8, 0x00]);
        assert(handshake@ =~= fake_handshake());
        handshake
    }

    /// Whether `data` starts with a well-formed TLS record header whose body is present.
    pub fn validate_tls_frame(&self, data: &[u8]) -> (res: bool)
        ensures
            res == spec_valid_tls_frame(data@),
    {
        if data.len() < 5 {
            return false;
        }
        let content_type = data[0];
        let version: u16 = (data[1] as u16) * 256 + (data[2] as u16);
        let length: usize = (data[3] as usize) * 256 + (data[4] as usize);
        content_type >= 0x14 && content_type <= 0x18
            && (version == 0x0301 || version == 0x0302 || version == 0x0303)
            && data.len() >= 5 + length
    }
}

/// Unwrapping what wrapping produced gives back the original bytes, whether masking is on or off.
pub proof fn lemma_unwrap_after_wrap(enabled: bool, data: Seq<u8>)
    ensures
        spec_unwrap(enabled, spec_wrap(enabled, data)) == Some(data),
{
    if enabled {
        let w = spec_wrap(enabled, data);
        assert(w.subrange(10, w.len() - 10) =~= data);
    }
}

} // verus!
