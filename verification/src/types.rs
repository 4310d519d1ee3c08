//! The data that the library works on: users, chat messages, media packets and streams.
use crate::outside;
use crate::outside::Timestamp;
use bytes::Bytes;
use vstd::prelude::*;

verus! {

/// What happens to a recording that has grown to its limit.
#[derive(Clone, Copy, Debug, PartialEq, Eq, Structural)]
pub enum RecordOverflowAction {
    Delete,
    Archive,
}

/// Whether and how streams are recorded.
#[derive(Clone, Copy, Debug, PartialEq, Eq, Structural)]
pub struct RecordConfig {
    pub enabled: bool,
    pub max_size_bytes: u64,
    pub overflow_action: RecordOverflowAction,
    pub max_archived_files: usize,
}

/// A registered user.
#[derive(Debug)]
pub struct User {
    pub username: String,
    pub password_hash: String,
    pub token: String,
    pub created_at: Timestamp,
}

/// A registered user, by the texts of its fields.
pub struct UserView {
    pub username: Seq<char>,
    pub password_hash: Seq<char>,
    pub token: Seq<char>,
    pub created_at: Timestamp,
}

impl View for User {
    type V = UserView;

    open spec fn view(&self) -> UserView {
        UserView {
            username: self.username@,
            password_hash: self.password_hash@,
            token: self.token@,
            created_at: self.created_at,
        }
    }
}

impl Clone for User {
    fn clone(&self) -> (r: Self)
        ensures
            r@ == self@,
    {
        User {
            username: self.username.clone(),
            password_hash: self.password_hash.clone(),
            token: self.token.clone(),
            created_at: self.created_at,
        }
    }
}

/// A message in the chat of a stream.
#[derive(Debug)]
pub struct ChatMessage {
    pub id: String,
    pub stream_key: String,
    pub sender: String,
    /// Such as "Broadcaster", "Moderator" or "VIP".
    pub badge: Option<String>,
    pub message: String,
    pub timestamp: Timestamp,
}

/// A chat message, by the texts of its fields.
pub struct ChatView {
    pub id: Seq<char>,
    pub stream_key: Seq<char>,
    pub sender: Seq<char>,
    pub badge: Option<Seq<char>>,
    pub message: Seq<char>,
    pub timestamp: Timestamp,
}

/// The text of an optional string.
pub open spec fn opt_text(s: Option<String>) -> Option<Seq<char>> {
    match s {
        Some(t) => Some(t@),
        None => None,
    }
}

impl View for ChatMessage {
    type V = ChatView;

    open spec fn view(&self) -> ChatView {
        ChatView {
            id: self.id@,
            stream_key: self.stream_key@,
            sender: self.sender@,
            badge: opt_text(self.badge),
            message: self.message@,
            timestamp: self.timestamp,
        }
    }
}

impl Clone for ChatMessage {
    fn clone(&self) -> (r: Self)
        ensures
            r@ == self@,
    {
        ChatMessage {
            id: self.id.clone(),
            stream_key: self.stream_key.clone(),
            sender: self.sender.clone(),
            badge: self.badge.clone(),
            message: self.message.clone(),
            timestamp: self.timestamp,
        }
    }
}

/// A piece of a live stream.
#[derive(Debug)]
pub enum MediaPacket {
    /// What a decoder needs before anything else, as an FLV tag.
    SequenceHeader(Bytes),
    /// A video tag.
    Video { data: Bytes, timestamp_ms: u32, is_keyframe: bool },
    /// An audio tag.
    Audio { data: Bytes, timestamp_ms: u32 },
    /// An FLV tag, or a chunk of another format.
    RawChunk { data: Bytes, content_type: String },
}

/// A piece of a live stream, by its bytes.
pub enum PacketView {
    SequenceHeader(Seq<u8>),
    Video { data: Seq<u8>, timestamp_ms: u32, is_keyframe: bool },
    Audio { data: Seq<u8>, timestamp_ms: u32 },
    RawChunk { data: Seq<u8>, content_type: Seq<char> },
}

impl PacketView {
    /// The bytes of a packet.
    pub open spec fn bytes(self) -> Seq<u8> {
        match self {
            PacketView::SequenceHeader(b) => b,
            PacketView::Video { data, .. } => data,
            PacketView::Audio { data, .. } => data,
            PacketView::RawChunk { data, .. } => data,
        }
    }
}

impl View for MediaPacket {
    type V = PacketView;

    open spec fn view(&self) -> PacketView {
        match *self {
            MediaPacket::SequenceHeader(b) => PacketView::SequenceHeader(outside::bytes_seq(b)),
            MediaPacket::Video { data, timestamp_ms, is_keyframe } => PacketView::Video {
                data: outside::bytes_seq(data),
                timestamp_ms,
                is_keyframe,
            },
            MediaPacket::Audio { data, timestamp_ms } => PacketView::Audio {
                data: outside::bytes_seq(data),
                timestamp_ms,
            },
            MediaPacket::RawChunk { data, content_type } => PacketView::RawChunk {
                data: outside::bytes_seq(data),
                content_type: content_type@,
            },
        }
    }
}

impl Clone for MediaPacket {
    fn clone(&self) -> (r: Self)
        ensures
            r@ == self@,
    {
        match self {
            MediaPacket::SequenceHeader(b) => MediaPacket::SequenceHeader(b.clone()),
            MediaPacket::Video { data, timestamp_ms, is_keyframe } => MediaPacket::Video {
                data: data.clone(),
                timestamp_ms: *timestamp_ms,
                is_keyframe: *is_keyframe,
            },
            MediaPacket::Audio { data, timestamp_ms } => MediaPacket::Audio {
                data: data.clone(),
                timestamp_ms: *timestamp_ms,
            },
            MediaPacket::RawChunk { data, content_type } => MediaPacket::RawChunk {
                data: data.clone(),
                content_type: content_type.clone(),
            },
        }
    }
}

impl MediaPacket {
    /// The bytes of a packet.
    pub fn into_bytes(self) -> (r: Bytes)
        ensures
            outside::bytes_seq(r) == self@.bytes(),
    {
        match self {
            MediaPacket::SequenceHeader(b) => b,
            MediaPacket::Video { data, .. } => data,
            MediaPacket::Audio { data, .. } => data,
            MediaPacket::RawChunk { data, .. } => data,
        }
    }
}

/// What is known of a stream.
#[derive(Debug)]
pub struct StreamMetadata {
    pub stream_key: String,
    pub title: String,
    pub broadcaster: String,
    pub category: String,
    pub description: String,
    pub is_live: bool,
    /// Such as "RTMP".
    pub source_type: String,
    pub started_at: Option<Timestamp>,
    pub viewer_count: usize,
    pub bitrate_kbps: u32,
    pub fps: u32,
    /// Such as "1920x1080".
    pub resolution: String,
}

/// What is known of a stream, by the texts of the fields.
pub struct MetaView {
    pub stream_key: Seq<char>,
    pub title: Seq<char>,
    pub broadcaster: Seq<char>,
    pub category: Seq<char>,
    pub description: Seq<char>,
    pub is_live: bool,
    pub source_type: Seq<char>,
    pub started_at: Option<Timestamp>,
    pub viewer_count: usize,
    pub bitrate_kbps: u32,
    pub fps: u32,
    pub resolution: Seq<char>,
}

impl View for StreamMetadata {
    type V = MetaView;

    open spec fn view(&self) -> MetaView {
        MetaView {
            stream_key: self.stream_key@,
            title: self.title@,
            broadcaster: self.broadcaster@,
            category: self.category@,
            description: self.description@,
            is_live: self.is_live,
            source_type: self.source_type@,
            started_at: self.started_at,
            viewer_count: self.viewer_count,
            bitrate_kbps: self.bitrate_kbps,
            fps: self.fps,
            resolution: self.resolution@,
        }
    }
}

impl Clone for StreamMetadata {
    fn clone(&self) -> (r: Self)
        ensures
            r@ == self@,
    {
        StreamMetadata {
            stream_key: self.stream_key.clone(),
            title: self.title.clone(),
            broadcaster: self.broadcaster.clone(),
            category: self.category.clone(),
            description: self.description.clone(),
            is_live: self.is_live,
            source_type: self.source_type.clone(),
            started_at: self.started_at,
            viewer_count: self.viewer_count,
            bitrate_kbps: self.bitrate_kbps,
            fps: self.fps,
            resolution: self.resolution.clone(),
        }
    }
}

} // verus!
