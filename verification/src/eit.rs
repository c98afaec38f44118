use vstd::prelude::*;

verus! {

/// Identifier of an original network.
pub type NetworkId = u16;

/// Identifier of a transport stream within a network.
pub type TransportStreamId = u16;

/// Identifier of a service within a transport stream.
pub type ServiceId = u16;

/// Identifier of an event within a service.
pub type EventId = u16;

/// The triple that identifies one service across the whole system.
#[derive(Clone, Copy, Debug, PartialEq, Eq, Hash, Structural)]
pub struct ServiceTriple {
    pub nid: NetworkId,
    pub tsid: TransportStreamId,
    pub sid: ServiceId,
}

/// One EIT section, decoded from one line of the external decoder's output.
/// `table_id` lies in the EIT schedule range `0x50 ..= 0x6F`.
#[derive(Clone, Debug, PartialEq)]
pub struct EitSection {
    pub original_network_id: NetworkId,
    pub transport_stream_id: TransportStreamId,
    pub service_id: ServiceId,
    pub table_id: u16,
    pub section_number: u8,
    pub last_section_number: u8,
    pub segment_last_section_number: u8,
    pub version_number: u8,
    pub events: Vec<EitEvent>,
}

impl EitSection {
    pub open spec fn spec_service_triple(self) -> ServiceTriple {
        ServiceTriple {
            nid: self.original_network_id,
            tsid: self.transport_stream_id,
            sid: self.service_id,
        }
    }

    /// Offset of this section's table within the EIT schedule table range.
    pub fn table_index(&self) -> (r: usize)
        requires
            0x50 <= self.table_id,
        ensures
            r == self.table_id - 0x50,
    {
        self.table_id as usize - 0x50
    }

    /// Index of the 8-section segment this section belongs to.
    pub fn segment_index(&self) -> (r: usize)
        ensures
            r == self.section_number as int / 8,
    {
        self.section_number as usize / 8
    }

    /// Position of this section within its segment.
    pub fn section_index(&self) -> (r: usize)
        ensures
            r == self.section_number as int % 8,
    {
        self.section_number as usize % 8
    }

    /// Position of the segment's last section within the segment.
    pub fn last_section_index(&self) -> (r: usize)
        ensures
            r == self.segment_last_section_number as int % 8,
    {
        self.segment_last_section_number as usize % 8
    }

    /// The service this section describes.
    pub fn service_triple(&self) -> (r: ServiceTriple)
        ensures
            r == self.spec_service_triple(),
    {
        ServiceTriple {
            nid: self.original_network_id,
            tsid: self.transport_stream_id,
            sid: self.service_id,
        }
    }
}

/// One programme of an EIT section's event list. Times are milliseconds:
/// `start_time` on the JST wall clock, `duration` a span.
#[derive(Clone, Debug, PartialEq)]
pub struct EitEvent {
    pub event_id: EventId,
    pub start_time: i64,
    pub duration: i64,
    pub scrambled: bool,
    pub descriptors: Vec<EitDescriptor>,
}

impl EitEvent {
    /// When the event ends: its start plus its duration.
    pub fn end_time(&self) -> (r: i64)
        requires
            self.start_time + self.duration <= i64::MAX,
            self.start_time + self.duration >= i64::MIN,
        ensures
            r == self.start_time + self.duration,
    {
        self.start_time + self.duration
    }

    /// Whether the event straddles the given midnight: it starts before and
    /// ends after.
    pub fn is_overnight_event(&self, midnight: i64) -> (r: bool)
        requires
            self.start_time + self.duration <= i64::MAX,
            self.start_time + self.duration >= i64::MIN,
        ensures
            r == (self.start_time < midnight && self.start_time + self.duration > midnight),
    {
        self.start_time < midnight && self.end_time() > midnight
    }
}

/// A descriptor attached to an EIT event, one of the five kinds the decoder
/// emits.
#[derive(Clone, Debug, PartialEq)]
pub enum EitDescriptor {
    ShortEvent { event_name: String, text: String },
    Component { stream_content: u8, component_type: u8 },
    AudioComponent { component_type: u8, sampling_rate: u8 },
    Content { nibbles: Vec<(u8, u8, u8, u8)> },
    ExtendedEvent { items: Vec<(String, String)> },
}

} // verus!
