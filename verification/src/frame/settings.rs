use vstd::prelude::*;

use crate::frame::{wire, FrameError, FrameSize, Head, Kind, StreamId, HEADER_LEN};

verus! {

/// Connection settings, each of them optional.
#[derive(Debug, Copy, Clone, Eq, PartialEq, Structural)]
pub struct Settings {
    pub ack: bool,
    pub header_table_size: Option<u32>,
    pub enable_push: Option<u32>,
    pub max_concurrent_streams: Option<u32>,
    pub initial_window_size: Option<u32>,
    pub max_frame_size: Option<u32>,
    pub max_header_list_size: Option<u32>,
    pub enable_connect_protocol: Option<u32>,
}

pub const ACK_FLAG: u8 = 0x1;

/// The default value of SETTINGS_HEADER_TABLE_SIZE
pub const DEFAULT_SETTINGS_HEADER_TABLE_SIZE: usize = 4096;

/// The default value of SETTINGS_INITIAL_WINDOW_SIZE
pub const DEFAULT_INITIAL_WINDOW_SIZE: u32 = 65_535;

/// The default value of MAX_FRAME_SIZE
pub const DEFAULT_MAX_FRAME_SIZE: FrameSize = 16_384;

/// INITIAL_WINDOW_SIZE upper bound
pub const MAX_INITIAL_WINDOW_SIZE: u32 = 0x7fff_ffff;

/// MAX_FRAME_SIZE upper bound
pub const MAX_MAX_FRAME_SIZE: FrameSize = 0xff_ffff;

/// One setting on the wire: a 16-bit identifier and a 32-bit value.
pub open spec fn setting_bytes(id: u8, val: u32) -> Seq<u8> {
    seq![0u8, id] + wire::be32_bytes(val)
}

/// An optional setting on the wire.
#[verifier::opaque]
pub open spec fn option_bytes(id: u8, val: Option<u32>) -> Seq<u8> {
    match val {
        Some(v) => setting_bytes(id, v),
        None => Seq::empty(),
    }
}

impl Settings {
    /// No setting at all.
    pub open spec fn empty() -> Settings {
        Settings {
            ack: false,
            header_table_size: None,
            enable_push: None,
            max_concurrent_streams: None,
            initial_window_size: None,
            max_frame_size: None,
            max_header_list_size: None,
            enable_connect_protocol: None,
        }
    }

    /// Every setting is within its range, and an acknowledgement holds none.
    pub open spec fn wf(self) -> bool {
        &&& self.ack ==> self == (Settings { ack: true, ..Settings::empty() })
        &&& self.enable_push matches Some(v) ==> v <= 1
        &&& self.initial_window_size matches Some(v) ==> v <= MAX_INITIAL_WINDOW_SIZE
        &&& self.max_frame_size matches Some(v) ==> DEFAULT_MAX_FRAME_SIZE <= v
            <= MAX_MAX_FRAME_SIZE
        &&& self.enable_connect_protocol matches Some(v) ==> v <= 1
    }

    /// These settings with one more, unless its value is out of range. Settings
    /// with an unknown identifier change nothing.
    pub open spec fn with(self, id: int, val: u32) -> Result<Settings, FrameError> {
        if id == 1 {
            Ok(Settings { header_table_size: Some(val), ..self })
        } else if id == 2 {
            if val <= 1 {
                Ok(Settings { enable_push: Some(val), ..self })
            } else {
                Err(FrameError::InvalidSettingValue)
            }
        } else if id == 3 {
            Ok(Settings { max_concurrent_streams: Some(val), ..self })
        } else if id == 4 {
            if val <= MAX_INITIAL_WINDOW_SIZE {
                Ok(Settings { initial_window_size: Some(val), ..self })
            } else {
                Err(FrameError::InvalidSettingValue)
            }
        } else if id == 5 {
            if DEFAULT_MAX_FRAME_SIZE <= val <= MAX_MAX_FRAME_SIZE {
                Ok(Settings { max_frame_size: Some(val), ..self })
            } else {
                Err(FrameError::InvalidSettingValue)
            }
        } else if id == 6 {
            Ok(Settings { max_header_list_size: Some(val), ..self })
        } else if id == 8 {
            if val <= 1 {
                Ok(Settings { enable_connect_protocol: Some(val), ..self })
            } else {
                Err(FrameError::InvalidSettingValue)
            }
        } else {
            Ok(self)
        }
    }

    /// These settings with all those of a payload, first to last.
    #[verifier::opaque]
    pub open spec fn with_all(self, payload: Seq<u8>) -> Result<Settings, FrameError>
        decreases payload.len(),
    {
        if payload.len() < 6 {
            Ok(self)
        } else {
            match self.with(
                payload[0] * 0x100 + payload[1],
                wire::be32(payload.skip(2)) as u32,
            ) {
                Ok(s) => s.with_all(payload.skip(6)),
                Err(e) => Err(e),
            }
        }
    }

    /// The frame that belongs to a head and the payload behind it.
    pub open spec fn loaded(head: Head, payload: Seq<u8>) -> Result<Settings, FrameError> {
        if head.stream_id.0 != 0 {
            Err(FrameError::InvalidStreamId)
        } else if head.flag & ACK_FLAG == ACK_FLAG {
            if payload.len() != 0 {
                Err(FrameError::InvalidPayloadLength)
            } else {
                Ok(Settings { ack: true, ..Settings::empty() })
            }
        } else if payload.len() % 6 != 0 {
            Err(FrameError::InvalidPayloadAckSettings)
        } else {
            Settings::empty().with_all(payload)
        }
    }

    pub open spec fn payload(self) -> Seq<u8> {
        option_bytes(1, self.header_table_size) + option_bytes(2, self.enable_push) + option_bytes(
            3,
            self.max_concurrent_streams,
        ) + option_bytes(4, self.initial_window_size) + option_bytes(5, self.max_frame_size)
            + option_bytes(6, self.max_header_list_size) + option_bytes(
            8,
            self.enable_connect_protocol,
        )
    }

    pub open spec fn head(self) -> Head {
        Head {
            kind: Kind::Settings,
            flag: if self.ack {
                ACK_FLAG
            } else {
                0
            },
            stream_id: StreamId(0),
        }
    }

    /// The frame on the wire.
    pub open spec fn bytes(self) -> Seq<u8> {
        self.head().bytes(self.payload().len()) + self.payload()
    }

    /// The answer to a SETTINGS frame.
    pub fn ack() -> (r: Settings)
        ensures
            r == (Settings { ack: true, ..Settings::empty() }),
            r.wf(),
    {
        Settings { ack: true, ..Settings::default() }
    }

    pub fn is_ack(&self) -> (r: bool)
        ensures
            r == self.ack,
    {
        self.ack
    }

    pub fn initial_window_size(&self) -> (r: Option<u32>)
        ensures
            r == self.initial_window_size,
    {
        self.initial_window_size
    }

    pub fn set_initial_window_size(&mut self, size: Option<u32>)
        ensures
            *final(self) == (Settings { initial_window_size: size, ..*old(self) }),
    {
        self.initial_window_size = size;
    }

    pub fn max_concurrent_streams(&self) -> (r: Option<u32>)
        ensures
            r == self.max_concurrent_streams,
    {
        self.max_concurrent_streams
    }

    pub fn set_max_concurrent_streams(&mut self, max: Option<u32>)
        ensures
            *final(self) == (Settings { max_concurrent_streams: max, ..*old(self) }),
    {
        self.max_concurrent_streams = max;
    }

    pub fn max_frame_size(&self) -> (r: Option<u32>)
        ensures
            r == self.max_frame_size,
    {
        self.max_frame_size
    }

    /// The size must lie between 16,384 and 16,777,215.
    pub fn set_max_frame_size(&mut self, size: u32)
        requires
            DEFAULT_MAX_FRAME_SIZE <= size <= MAX_MAX_FRAME_SIZE,
        ensures
            *final(self) == (Settings { max_frame_size: Some(size), ..*old(self) }),
    {
        self.max_frame_size = Some(size);
    }

    pub fn max_header_list_size(&self) -> (r: Option<u32>)
        ensures
            r == self.max_header_list_size,
    {
        self.max_header_list_size
    }

    pub fn set_max_header_list_size(&mut self, size: Option<u32>)
        ensures
            *final(self) == (Settings { max_header_list_size: size, ..*old(self) }),
    {
        self.max_header_list_size = size;
    }

    pub fn header_table_size(&self) -> (r: Option<u32>)
        ensures
            r == self.header_table_size,
    {
        self.header_table_size
    }

    pub fn set_enable_push(&mut self, enable: bool)
        ensures
            *final(self) == (Settings {
                enable_push: Some(
                    if enable {
                        1
                    } else {
                        0
                    },
                ),
                ..*old(self)
            }),
    {
        self.enable_push = Some(
            if enable {
                1
            } else {
                0
            },
        );
    }

    /// Adds one setting that was read off the wire.
    fn set(&mut self, id: u32, val: u32) -> (r: Result<(), FrameError>)
        ensures
            match old(self).with(id as int, val) {
                Ok(s) => r is Ok && *final(self) == s,
                Err(e) => r == Err::<(), FrameError>(e),
            },
    {
        match id {
            1 => self.header_table_size = Some(val),
            2 => if val <= 1 {
                self.enable_push = Some(val)
            } else {
                return Err(FrameError::InvalidSettingValue);
            },
            3 => self.max_concurrent_streams = Some(val),
            4 => if val <= MAX_INITIAL_WINDOW_SIZE {
                self.initial_window_size = Some(val)
            } else {
                return Err(FrameError::InvalidSettingValue);
            },
            5 => if DEFAULT_MAX_FRAME_SIZE <= val && val <= MAX_MAX_FRAME_SIZE {
                self.max_frame_size = Some(val)
            } else {
                return Err(FrameError::InvalidSettingValue);
            },
            6 => self.max_header_list_size = Some(val),
            8 => if val <= 1 {
                self.enable_connect_protocol = Some(val)
            } else {
                return Err(FrameError::InvalidSettingValue);
            },
            _ => {},
        }
        Ok(())
    }

    /// Builds the frame from its head and the bytes behind the head.
    #[verifier::loop_isolation(false)]
    #[verifier::spinoff_prover]
    #[verifier::rlimit(40)]
    pub fn load(head: Head, payload: &[u8]) -> (r: Result<Settings, FrameError>)
        ensures
            r == Settings::loaded(head, payload@),
            r matches Ok(s) ==> s.wf(),
    {
        if !head.stream_id().is_zero() {
            return Err(FrameError::InvalidStreamId);
        }
        if head.flag() & ACK_FLAG == ACK_FLAG {
            if payload.len() != 0 {
                return Err(FrameError::InvalidPayloadLength);
            }
            return Ok(Settings::ack());
        }
        let len: usize = payload.len();
        if len % 6 != 0 {
            return Err(FrameError::InvalidPayloadAckSettings);
        }
        let mut settings = Settings::default();
        let mut i: usize = 0;
        assert(payload@.skip(0) =~= payload@);
        proof {
            reveal_with_fuel(Settings::with_all, 2);
        }
        while i < len
            invariant
                i <= len,
                len == payload@.len(),
                (len - i) % 6 == 0,
                settings.wf(),
                settings.ack == false,
                Settings::empty().with_all(payload@) == settings.with_all(payload@.skip(i as int)),
            decreases len - i,
        {
            let id: u32 = payload[i] as u32 * 0x100 + payload[i + 1] as u32;
            let val: u32 = wire::get_u32(payload, i + 2);
            let ghost rest = payload@.skip(i as int);
            assert(rest.skip(2) =~= payload@.skip(i + 2));
            assert(rest.skip(6) =~= payload@.skip(i + 6));
            match settings.set(id, val) {
                Ok(_) => {},
                Err(e) => return Err(e),
            }
            i += 6;
        }
        Ok(settings)
    }

    /// Writes an optional setting.
    fn put(dst: &mut Vec<u8>, id: u8, val: Option<u32>)
        ensures
            final(dst)@ == old(dst)@ + option_bytes(id, val),
    {
        proof {
            reveal(option_bytes);
        }
        if let Some(v) = val {
            dst.push(0);
            dst.push(id);
            wire::put_u32(dst, v);
        }
        assert(dst@ =~= old(dst)@ + option_bytes(id, val));
    }

    pub fn encode(&self, dst: &mut Vec<u8>)
        ensures
            final(dst)@ == old(dst)@ + self.bytes(),
    {
        let mut payload: Vec<u8> = Vec::new();
        proof {
            option_bytes_len(1, self.header_table_size);
            option_bytes_len(2, self.enable_push);
            option_bytes_len(3, self.max_concurrent_streams);
            option_bytes_len(4, self.initial_window_size);
            option_bytes_len(5, self.max_frame_size);
            option_bytes_len(6, self.max_header_list_size);
            option_bytes_len(8, self.enable_connect_protocol);
        }
        Settings::put(&mut payload, 1, self.header_table_size);
        Settings::put(&mut payload, 2, self.enable_push);
        Settings::put(&mut payload, 3, self.max_concurrent_streams);
        Settings::put(&mut payload, 4, self.initial_window_size);
        Settings::put(&mut payload, 5, self.max_frame_size);
        Settings::put(&mut payload, 6, self.max_header_list_size);
        Settings::put(&mut payload, 8, self.enable_connect_protocol);
        assert(Seq::<u8>::empty() + option_bytes(1, self.header_table_size) =~= option_bytes(
            1,
            self.header_table_size,
        ));

        let flag: u8 = if self.ack {
            ACK_FLAG
        } else {
            0
        };
        Head::new(Kind::Settings, flag, StreamId::zero()).encode(payload.len(), dst);
        dst.extend_from_slice(payload.as_slice());
        assert(dst@ =~= old(dst)@ + self.bytes());
    }
}

impl Default for Settings {
    fn default() -> (r: Settings)
        ensures
            r == Settings::empty(),
            r.wf(),
    {
        Settings {
            ack: false,
            header_table_size: None,
            enable_push: None,
            max_concurrent_streams: None,
            initial_window_size: None,
            max_frame_size: None,
            max_header_list_size: None,
            enable_connect_protocol: None,
        }
    }
}

/// What reading one written setting does.
/// Settings off the wire are within their ranges.
pub proof fn loaded_settings_valid(head: Head, payload: Seq<u8>)
    ensures
        Settings::loaded(head, payload) matches Ok(s) ==> s.wf(),
{
    with_all_valid(Settings::empty(), payload);
}

proof fn with_all_valid(s: Settings, payload: Seq<u8>)
    requires
        s.wf(),
        !s.ack,
    ensures
        s.with_all(payload) matches Ok(r) ==> r.wf() && !r.ack,
    decreases payload.len(),
{
    reveal_with_fuel(Settings::with_all, 1);
    if payload.len() >= 6 {
        match s.with(payload[0] * 0x100 + payload[1], wire::be32(payload.skip(2)) as u32) {
            Ok(next) => {
                with_all_valid(next, payload.skip(6));
            },
            Err(_) => {},
        }
    }
}

proof fn with_all_step(s: Settings, id: u8, val: Option<u32>, rest: Seq<u8>)
    ensures
        s.with_all(option_bytes(id, val) + rest) == match val {
            None => s.with_all(rest),
            Some(v) => match s.with(id as int, v) {
                Ok(t) => t.with_all(rest),
                Err(e) => Err(e),
            },
        },
{
    reveal(option_bytes);
    reveal_with_fuel(Settings::with_all, 1);
    let all = option_bytes(id, val) + rest;
    match val {
        None => assert(all =~= rest),
        Some(v) => {
            wire::be32_inverse(v, rest);
            assert(all.skip(2) =~= wire::be32_bytes(v) + rest);
            assert(all.skip(6) =~= rest);
            assert(all[0] == 0 && all[1] == id);
        },
    }
}

/// Concatenation is associative.
proof fn concat_assoc(a: Seq<u8>, b: Seq<u8>, c: Seq<u8>)
    ensures
        (a + b) + c == a + (b + c),
{
    assert((a + b) + c =~= a + (b + c));
}

/// The length of an optional setting.
proof fn option_bytes_len(id: u8, val: Option<u32>)
    ensures
        option_bytes(id, val).len() == (if val is Some {
            6int
        } else {
            0int
        }),
{
    reveal(option_bytes);
}

/// The settings that a payload was made from are those that it is read as.
proof fn payload_round_trip(frame: Settings)
    requires
        frame.wf(),
        !frame.ack,
    ensures
        frame.payload().len() % 6 == 0,
        frame.payload().len() <= 42,
        Settings::empty().with_all(frame.payload()) == Ok::<Settings, FrameError>(frame),
{
    let o1 = option_bytes(1, frame.header_table_size);
    let o2 = option_bytes(2, frame.enable_push);
    let o3 = option_bytes(3, frame.max_concurrent_streams);
    let o4 = option_bytes(4, frame.initial_window_size);
    let o5 = option_bytes(5, frame.max_frame_size);
    let o6 = option_bytes(6, frame.max_header_list_size);
    let o7 = option_bytes(8, frame.enable_connect_protocol);
    option_bytes_len(1, frame.header_table_size);
    option_bytes_len(2, frame.enable_push);
    option_bytes_len(3, frame.max_concurrent_streams);
    option_bytes_len(4, frame.initial_window_size);
    option_bytes_len(5, frame.max_frame_size);
    option_bytes_len(6, frame.max_header_list_size);
    option_bytes_len(8, frame.enable_connect_protocol);
    let p8 = Seq::<u8>::empty();
    let p7 = o7 + p8;
    let p6 = o6 + p7;
    let p5 = o5 + p6;
    let p4 = o4 + p5;
    let p3 = o3 + p4;
    let p2 = o2 + p3;
    let p1 = o1 + p2;
    assert(frame.payload() == p1) by {
        assert(p7 =~= o7);
        concat_assoc(o1 + o2 + o3 + o4 + o5, o6, o7);
        concat_assoc(o1 + o2 + o3 + o4, o5, p6);
        concat_assoc(o1 + o2 + o3, o4, p5);
        concat_assoc(o1 + o2, o3, p4);
        concat_assoc(o1, o2, p3);
    }
    let s0 = Settings::empty();
    let s1 = Settings { header_table_size: frame.header_table_size, ..s0 };
    let s2 = Settings { enable_push: frame.enable_push, ..s1 };
    let s3 = Settings { max_concurrent_streams: frame.max_concurrent_streams, ..s2 };
    let s4 = Settings { initial_window_size: frame.initial_window_size, ..s3 };
    let s5 = Settings { max_frame_size: frame.max_frame_size, ..s4 };
    let s6 = Settings { max_header_list_size: frame.max_header_list_size, ..s5 };
    assert(s0.with_all(p1) == s1.with_all(p2)) by {
        with_all_step(s0, 1, frame.header_table_size, p2);
    }
    assert(s1.with_all(p2) == s2.with_all(p3)) by {
        with_all_step(s1, 2, frame.enable_push, p3);
    }
    assert(s2.with_all(p3) == s3.with_all(p4)) by {
        with_all_step(s2, 3, frame.max_concurrent_streams, p4);
    }
    assert(s3.with_all(p4) == s4.with_all(p5)) by {
        with_all_step(s3, 4, frame.initial_window_size, p5);
    }
    assert(s4.with_all(p5) == s5.with_all(p6)) by {
        with_all_step(s4, 5, frame.max_frame_size, p6);
    }
    assert(s5.with_all(p6) == s6.with_all(p7)) by {
        with_all_step(s5, 6, frame.max_header_list_size, p7);
    }
    assert(s6.with_all(p7) == frame.with_all(p8)) by {
        with_all_step(s6, 8, frame.enable_connect_protocol, p8);
    }
    assert(frame.with_all(p8) == Ok::<Settings, FrameError>(frame)) by {
        reveal_with_fuel(Settings::with_all, 1);
    }
}

/// A SETTINGS frame that was written reads back as itself.
pub proof fn settings_round_trip(frame: Settings)
    requires
        frame.wf(),
    ensures
        frame.bytes().len() == HEADER_LEN + frame.payload().len(),
        frame.payload().len() <= 42,
        Settings::loaded(Head::parsed(frame.bytes()), frame.bytes().skip(HEADER_LEN as int)) == Ok::<
            Settings,
            FrameError,
        >(frame),
{
    let p = frame.payload();
    if frame.ack {
        reveal(option_bytes);
        assert(p =~= Seq::empty());
    } else {
        payload_round_trip(frame);
    }
    crate::frame::head::head_round_trip(frame.head(), p.len(), p);
    assert(frame.bytes().skip(HEADER_LEN as int) =~= p);
    assert(1u8 & 1u8 == 1 && 0u8 & 1u8 != 1) by (bit_vector);
}

/// The one thing that can be wrong with a list of settings is a value.
pub proof fn settings_errors(frame: Settings, payload: Seq<u8>)
    ensures
        frame.with_all(payload) matches Err(e) ==> e == FrameError::InvalidSettingValue,
    decreases payload.len(),
{
    reveal_with_fuel(Settings::with_all, 1);
    if payload.len() >= 6 {
        match frame.with(payload[0] * 0x100 + payload[1], wire::be32(payload.skip(2)) as u32) {
            Ok(next) => settings_errors(next, payload.skip(6)),
            Err(_) => {},
        }
    }
}

} // verus!
