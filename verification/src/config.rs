use vstd::prelude::*;

use crate::frame::{
    Settings, WindowSize, DEFAULT_INITIAL_WINDOW_SIZE, DEFAULT_MAX_FRAME_SIZE, MAX_MAX_FRAME_SIZE,
};
use crate::{consts, frame};

verus! {

/// A third of the default initial window size of a stream.
pub const DEFAULT_WINDOW_SIZE_THRESHOLD: WindowSize = 21_845;

/// A quarter of the default window size of a connection.
pub const DEFAULT_CONNECTION_WINDOW_SIZE_THRESHOLD: WindowSize = 262_144;

/// Http2 connection configuration
#[derive(Copy, Clone, Debug, PartialEq, Eq, Structural)]
pub struct ServiceConfig {
    pub settings: Settings,
    /// Initial window size of locally initiated streams
    pub window_sz: WindowSize,
    pub window_sz_threshold: WindowSize,
    /// How long a locally reset stream should ignore frames, in seconds
    pub reset_duration: u16,
    /// Maximum number of locally reset streams to keep at a time
    pub reset_max: usize,
    /// Initial window size for new connections.
    pub connection_window_sz: WindowSize,
    pub connection_window_sz_threshold: WindowSize,
    /// Maximum number of remote initiated streams
    pub remote_max_concurrent_streams: Option<u32>,
    /// Limit number of continuation frames for headers
    pub max_header_continuations: usize,
    /// Connection timeouts, in seconds
    pub handshake_timeout: u16,
    pub ping_timeout: u16,
    /// How long a stream may wait for send capacity, in seconds
    pub capacity_timeout: Option<u16>,
}

impl ServiceConfig {
    /// The configuration that nothing has been changed in.
    pub open spec fn initial() -> ServiceConfig {
        ServiceConfig {
            settings: Settings {
                max_concurrent_streams: Some(256u32),
                enable_push: Some(0u32),
                max_header_list_size: Some(consts::DEFAULT_SETTINGS_MAX_HEADER_LIST_SIZE),
                ..Settings::empty()
            },
            window_sz: DEFAULT_INITIAL_WINDOW_SIZE,
            window_sz_threshold: DEFAULT_WINDOW_SIZE_THRESHOLD,
            reset_duration: consts::DEFAULT_RESET_STREAM_SECS,
            reset_max: consts::DEFAULT_RESET_STREAM_MAX,
            connection_window_sz: consts::DEFAULT_CONNECTION_WINDOW_SIZE,
            connection_window_sz_threshold: DEFAULT_CONNECTION_WINDOW_SIZE_THRESHOLD,
            remote_max_concurrent_streams: Some(256u32),
            max_header_continuations: consts::DEFAULT_MAX_COUNTINUATIONS,
            handshake_timeout: 5,
            ping_timeout: 60,
            capacity_timeout: None,
        }
    }

    /// A configuration that a connection can run with: the windows fit the
    /// protocol, and locally reset streams can be kept.
    pub open spec fn wf(self) -> bool {
        &&& self.settings.wf()
        &&& !self.settings.ack
        &&& self.window_sz <= consts::MAX_WINDOW_SIZE
        &&& self.window_sz_threshold <= consts::MAX_WINDOW_SIZE
        &&& self.connection_window_sz <= consts::MAX_WINDOW_SIZE
        &&& self.connection_window_sz_threshold <= self.connection_window_sz
        &&& self.reset_max > 0
    }

    /// Whether a connection can run with this configuration.
    pub fn is_valid(&self) -> (r: bool)
        ensures
            r == self.wf(),
    {
        let s = &self.settings;
        let no_ack: bool = !s.ack;
        let push: bool = match s.enable_push {
            Some(v) => v <= 1,
            None => true,
        };
        let window: bool = match s.initial_window_size {
            Some(v) => v <= frame::MAX_INITIAL_WINDOW_SIZE,
            None => true,
        };
        let size: bool = match s.max_frame_size {
            Some(v) => DEFAULT_MAX_FRAME_SIZE <= v && v <= MAX_MAX_FRAME_SIZE,
            None => true,
        };
        let connect: bool = match s.enable_connect_protocol {
            Some(v) => v <= 1,
            None => true,
        };
        no_ack && push && window && size && connect && self.window_sz <= consts::MAX_WINDOW_SIZE
            && self.window_sz_threshold <= consts::MAX_WINDOW_SIZE && self.connection_window_sz
            <= consts::MAX_WINDOW_SIZE && self.connection_window_sz_threshold
            <= self.connection_window_sz && self.reset_max > 0
    }

    /// Create configuration
    pub fn new() -> (r: ServiceConfig)
        ensures
            r == ServiceConfig::initial(),
            r.wf(),
    {
        let mut settings = Settings::default();
        settings.set_max_concurrent_streams(Some(256));
        settings.set_enable_push(false);
        settings.set_max_header_list_size(Some(consts::DEFAULT_SETTINGS_MAX_HEADER_LIST_SIZE));

        ServiceConfig {
            window_sz: DEFAULT_INITIAL_WINDOW_SIZE,
            window_sz_threshold: DEFAULT_WINDOW_SIZE_THRESHOLD,
            connection_window_sz: consts::DEFAULT_CONNECTION_WINDOW_SIZE,
            connection_window_sz_threshold: DEFAULT_CONNECTION_WINDOW_SIZE_THRESHOLD,
            settings,
            reset_max: consts::DEFAULT_RESET_STREAM_MAX,
            reset_duration: consts::DEFAULT_RESET_STREAM_SECS,
            remote_max_concurrent_streams: Some(256),
            max_header_continuations: consts::DEFAULT_MAX_COUNTINUATIONS,
            handshake_timeout: 5,
            ping_timeout: 60,
            capacity_timeout: None,
        }
    }

    /// Indicates the initial window size (in octets) for stream-level
    /// flow control for received data.
    ///
    /// The initial window of a stream is used as part of flow control. The window
    /// is announced again once `threshold` octets of it can be reclaimed.
    ///
    /// The default value is 65,535, with a threshold of a third of it.
    pub fn set_initial_window_size(self, size: u32, threshold: u32) -> (r: ServiceConfig)
        ensures
            r == (ServiceConfig {
                window_sz: size,
                window_sz_threshold: threshold,
                settings: Settings { initial_window_size: Some(size), ..self.settings },
                ..self
            }),
    {
        let mut config = self;
        config.window_sz = size;
        config.window_sz_threshold = threshold;
        config.settings.set_initial_window_size(Some(size));
        config
    }

    /// Indicates the initial window size (in octets) for connection-level flow control
    /// for received data.
    ///
    /// The initial window of a connection is used as part of flow control. The
    /// window is announced again once `threshold` octets of it can be reclaimed.
    ///
    /// The default value is 1Mb, with a threshold of a quarter of it.
    pub fn set_initial_connection_window_size(self, size: u32, threshold: u32) -> (r: ServiceConfig)
        requires
            size <= consts::MAX_WINDOW_SIZE,
        ensures
            r == (ServiceConfig {
                connection_window_sz: size,
                connection_window_sz_threshold: threshold,
                ..self
            }),
    {
        let mut config = self;
        config.connection_window_sz = size;
        config.connection_window_sz_threshold = threshold;
        config
    }

    /// Indicates the size (in octets) of the largest HTTP/2 frame payload that the
    /// configured server is able to accept.
    ///
    /// The sender may send data frames that are **smaller** than this value,
    /// but any data larger than `max` will be broken up into multiple `DATA`
    /// frames.
    ///
    /// The value **must** be between 16,384 and 16,777,215. The default value is 16,384.
    pub fn set_max_frame_size(self, max: u32) -> (r: ServiceConfig)
        requires
            DEFAULT_MAX_FRAME_SIZE <= max <= MAX_MAX_FRAME_SIZE,
        ensures
            r == (ServiceConfig {
                settings: Settings { max_frame_size: Some(max), ..self.settings },
                ..self
            }),
    {
        let mut config = self;
        config.settings.set_max_frame_size(max);
        config
    }

    /// Sets the max size of received header frames.
    ///
    /// This advisory setting informs a peer of the maximum size of header list
    /// that the sender is prepared to accept, in octets. The value is based on
    /// the uncompressed size of header fields, including the length of the name
    /// and value in octets plus an overhead of 32 octets for each header field.
    ///
    /// This setting is also used to limit the maximum amount of data that is
    /// buffered to decode HEADERS frames.
    ///
    /// By default value is set to 48Kb.
    pub fn set_max_header_list_size(self, max: u32) -> (r: ServiceConfig)
        ensures
            r == (ServiceConfig {
                settings: Settings { max_header_list_size: Some(max), ..self.settings },
                ..self
            }),
    {
        let mut config = self;
        config.settings.set_max_header_list_size(Some(max));
        config
    }

    /// Sets the max number of continuation frames for HEADERS
    ///
    /// By default value is set to 5
    pub fn set_max_header_continuation_frames(self, max: usize) -> (r: ServiceConfig)
        ensures
            r == (ServiceConfig { max_header_continuations: max, ..self }),
    {
        let mut config = self;
        config.max_header_continuations = max;
        config
    }

    /// Sets the maximum number of concurrent streams.
    ///
    /// The maximum concurrent streams setting only controls the maximum number
    /// of streams that can be initiated by the remote peer. In other words,
    /// when this setting is set to 100, this does not limit the number of
    /// concurrent streams that can be created by the caller.
    ///
    /// It is recommended that this value be no smaller than 100, so as to not
    /// unnecessarily limit parallelism. However, any value is legal, including
    /// 0. If `max` is set to 0, then the remote will not be permitted to
    /// initiate streams.
    ///
    /// If the remote *does* exceed the value set here, its stream is reset at once.
    pub fn set_max_concurrent_streams(self, max: u32) -> (r: ServiceConfig)
        ensures
            r == (ServiceConfig {
                remote_max_concurrent_streams: Some(max),
                settings: Settings { max_concurrent_streams: Some(max), ..self.settings },
                ..self
            }),
    {
        let mut config = self;
        config.remote_max_concurrent_streams = Some(max);
        config.settings.set_max_concurrent_streams(Some(max));
        config
    }

    /// Sets the maximum number of concurrent locally reset streams.
    ///
    /// When a stream is reset, any further frames received for that stream must
    /// be ignored for "some time". When this max value is reached, the oldest
    /// reset stream is purged from memory. Once the stream has been purged, any
    /// additional frames received for that stream will result in a connection
    /// level protocol error, forcing the connection to terminate.
    ///
    /// The default value is 32.
    pub fn set_max_concurrent_reset_streams(self, val: usize) -> (r: ServiceConfig)
        ensures
            r == (ServiceConfig { reset_max: val, ..self }),
    {
        let mut config = self;
        config.reset_max = val;
        config
    }

    /// Sets for how many seconds a locally reset stream is kept in memory.
    ///
    /// Once the duration elapses, the stream is purged from memory. Any
    /// additional frames received for that stream will result in a connection
    /// level protocol error, forcing the connection to terminate.
    ///
    /// The default value is 30 seconds.
    pub fn set_reset_stream_duration(self, dur: u16) -> (r: ServiceConfig)
        ensures
            r == (ServiceConfig { reset_duration: dur, ..self }),
    {
        let mut config = self;
        config.reset_duration = dur;
        config
    }

    /// Set handshake timeout, in seconds.
    ///
    /// Handshake includes receiving preface and completing connection preparation.
    ///
    /// By default handshake timeout is 5 seconds.
    pub fn set_handshake_timeout(self, timeout: u16) -> (r: ServiceConfig)
        ensures
            r == (ServiceConfig { handshake_timeout: timeout, ..self }),
    {
        let mut config = self;
        config.handshake_timeout = timeout;
        config
    }

    /// Set ping timeout, in seconds.
    ///
    /// By default ping time-out is set to 60 seconds.
    pub fn set_ping_timeout(self, timeout: u16) -> (r: ServiceConfig)
        ensures
            r == (ServiceConfig { ping_timeout: timeout, ..self }),
    {
        let mut config = self;
        config.ping_timeout = timeout;
        config
    }
}

impl Default for ServiceConfig {
    fn default() -> (r: ServiceConfig)
        ensures
            r == ServiceConfig::initial(),
    {
        ServiceConfig::new()
    }
}

/// The windows of a connection by default: a third of the initial size of a stream, and
/// a quarter of that of the connection, is given back at once. The peer is told of 256
/// streams, of no promises and of header lists of 48 KiB.
pub proof fn defaults_hang_together()
    ensures
        ({
            let c = ServiceConfig::initial();
            &&& c.wf()
            &&& c.window_sz == 65_535
            &&& 3 * c.window_sz_threshold == c.window_sz
            &&& c.connection_window_sz == 1024 * 1024
            &&& 4 * c.connection_window_sz_threshold == c.connection_window_sz
            &&& c.remote_max_concurrent_streams == c.settings.max_concurrent_streams
            &&& c.settings.max_concurrent_streams == Some(256u32)
            &&& c.settings.enable_push == Some(0u32)
            &&& c.settings.max_header_list_size == Some(49_152u32)
            &&& c.settings.initial_window_size is None
            &&& c.settings.max_frame_size is None
            &&& c.reset_max == 32
            &&& c.reset_duration == 30
            &&& c.max_header_continuations == 5
        }),
{
}

} // verus!
