//! Error kinds of the transport, room and audio layers. An I/O failure is
//! carried as its message.

use vstd::prelude::*;

use crate::packet::PacketError;

verus! {

/// Error type for TCP channel operations
#[derive(Debug, Clone)]
pub enum TcpError {
    Io(String),
    Packet(PacketError),
    ConnectionClosed,
    BufferFull,
}

/// Error type for UDP channel operations
#[derive(Debug, Clone)]
pub enum UdpError {
    Io(String),
    UnknownPeer(u16),
    PacketTooLarge { size: usize, max: usize },
}

/// Error type for discovery operations
#[derive(Debug, Clone)]
pub enum DiscoveryError {
    Io(String),
    Packet(PacketError),
}

/// Error type for host operations
#[derive(Debug, Clone)]
pub enum HostError {
    Io(String),
    Tcp(TcpError),
    Packet(PacketError),
    RoomFull,
    AlreadyRunning,
}

/// Error type for client operations
#[derive(Debug, Clone)]
pub enum ClientError {
    Io(String),
    Tcp(TcpError),
    Packet(PacketError),
    ConnectionFailed(String),
    HandshakeFailed,
    AlreadyConnected,
}

/// Error type for audio capture operations
#[derive(Debug, Clone)]
pub enum CaptureError {
    NoInputDevice,
    NoSupportedConfig,
    BuildStreamFailed(String),
    PlayFailed(String),
    DeviceError(String),
}

/// Error type for audio playback operations
#[derive(Debug, Clone)]
pub enum PlaybackError {
    NoOutputDevice,
    BuildStreamFailed(String),
    PlayFailed(String),
    DeviceError(String),
}

/// Error type for encoder operations
#[derive(Debug, Clone)]
pub enum EncoderError {
    CreateFailed(String),
    EncodeFailed(String),
}

/// Error type for decoder operations
#[derive(Debug, Clone)]
pub enum DecoderError {
    CreateFailed(String),
    DecodeFailed(String),
}

/// Error type for pipeline operations
#[derive(Debug, Clone)]
pub enum PipelineError {
    Capture(CaptureError),
    Playback(PlaybackError),
    Encoder(EncoderError),
    Decoder(DecoderError),
    NotStarted,
}

} // verus!
