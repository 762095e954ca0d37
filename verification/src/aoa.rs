//! Android Open Accessory: how a phone is recognised, switched to accessory
//! mode, and which of its endpoints are talked to.
use vstd::prelude::*;
use vstd::utf8::encode_utf8;

verus! {

pub const AOA_VID: u16 = 0x18D1;

pub const AOA_PID_V1: u16 = 0x2D00;

pub const AOA_PID_V2: u16 = 0x2D01;

pub const REQUEST_GET_PROTOCOL: u8 = 51;

pub const REQUEST_SEND_STRING: u8 = 52;

pub const REQUEST_START: u8 = 53;

/// How many strings an accessory introduces itself with.
pub const STRING_COUNT: u16 = 6;

/// Whether a device is a phone in accessory mode.
pub open spec fn is_accessory(vendor_id: u16, product_id: u16) -> bool {
    vendor_id == AOA_VID && (product_id == AOA_PID_V1 || product_id == AOA_PID_V2)
}

/// Whether a device is a phone in accessory mode.
pub fn is_aoa_device(vendor_id: u16, product_id: u16) -> (aoa: bool)
    ensures
        aoa == is_accessory(vendor_id, product_id),
{
    vendor_id == AOA_VID && (product_id == AOA_PID_V1 || product_id == AOA_PID_V2)
}

#[derive(Debug, Clone, Copy, PartialEq, Eq, Structural)]
pub enum TransferType {
    Control,
    Isochronous,
    Bulk,
    Interrupt,
}

#[derive(Debug, Clone, Copy, PartialEq, Eq, Structural)]
pub enum TransferDirection {
    Out,
    In,
}

#[derive(Debug, Clone, Copy, PartialEq, Eq, Structural)]
pub struct EndpointDescriptor {
    pub transfer_type: TransferType,
    pub direction: TransferDirection,
    pub address: u8,
    pub max_packet_size: usize,
}

#[derive(Debug)]
pub struct AltSettingDescriptor {
    pub endpoints: Vec<EndpointDescriptor>,
}

#[derive(Debug)]
pub struct InterfaceDescriptor {
    pub interface_number: u8,
    pub alt_settings: Vec<AltSettingDescriptor>,
}

#[derive(Debug)]
pub struct ConfigurationDescriptor {
    pub configuration_value: u8,
    pub interfaces: Vec<InterfaceDescriptor>,
}

/// Where a phone in accessory mode is talked to.
#[derive(Debug, Clone, Copy, PartialEq, Eq, Structural)]
pub struct AoaEndpoints {
    pub configuration_value: u8,
    pub interface_number: u8,
    pub in_endpoint_address: u8,
    pub out_endpoint_address: u8,
    /// The packet size of the endpoint that is read from.
    pub max_packet_size: usize,
}

/// The first bulk endpoint in the given direction.
pub open spec fn first_bulk(
    endpoints: Seq<EndpointDescriptor>,
    direction: TransferDirection,
) -> Option<EndpointDescriptor>
    decreases endpoints.len(),
{
    if endpoints.len() == 0 {
        None
    } else if endpoints.first().transfer_type is Bulk && endpoints.first().direction == direction {
        Some(endpoints.first())
    } else {
        first_bulk(endpoints.drop_first(), direction)
    }
}

/// The endpoints of an alternate setting that has bulk endpoints in both
/// directions.
pub open spec fn alt_setting_endpoints(
    configuration_value: u8,
    interface_number: u8,
    alt_setting: AltSettingDescriptor,
) -> Option<AoaEndpoints> {
    match (
        first_bulk(alt_setting.endpoints@, TransferDirection::In),
        first_bulk(alt_setting.endpoints@, TransferDirection::Out),
    ) {
        (Some(in_endpoint), Some(out_endpoint)) => Some(
            AoaEndpoints {
                configuration_value,
                interface_number,
                in_endpoint_address: in_endpoint.address,
                out_endpoint_address: out_endpoint.address,
                max_packet_size: in_endpoint.max_packet_size,
            },
        ),
        _ => None,
    }
}

/// The endpoints of the first alternate setting that has them.
pub open spec fn alt_settings_endpoints(
    configuration_value: u8,
    interface_number: u8,
    alt_settings: Seq<AltSettingDescriptor>,
) -> Option<AoaEndpoints>
    decreases alt_settings.len(),
{
    if alt_settings.len() == 0 {
        None
    } else {
        match alt_setting_endpoints(configuration_value, interface_number, alt_settings.first()) {
            Some(endpoints) => Some(endpoints),
            None => alt_settings_endpoints(
                configuration_value,
                interface_number,
                alt_settings.drop_first(),
            ),
        }
    }
}

/// The endpoints of the first interface that has them.
pub open spec fn interfaces_endpoints(
    configuration_value: u8,
    interfaces: Seq<InterfaceDescriptor>,
) -> Option<AoaEndpoints>
    decreases interfaces.len(),
{
    if interfaces.len() == 0 {
        None
    } else {
        match alt_settings_endpoints(
            configuration_value,
            interfaces.first().interface_number,
            interfaces.first().alt_settings@,
        ) {
            Some(endpoints) => Some(endpoints),
            None => interfaces_endpoints(configuration_value, interfaces.drop_first()),
        }
    }
}

/// The endpoints of the first configuration that has them.
pub open spec fn aoa_endpoints(configurations: Seq<ConfigurationDescriptor>) -> Option<AoaEndpoints>
    decreases configurations.len(),
{
    if configurations.len() == 0 {
        None
    } else {
        match interfaces_endpoints(
            configurations.first().configuration_value,
            configurations.first().interfaces@,
        ) {
            Some(endpoints) => Some(endpoints),
            None => aoa_endpoints(configurations.drop_first()),
        }
    }
}

fn find_bulk(endpoints: &Vec<EndpointDescriptor>, direction: TransferDirection) -> (found: Option<
    EndpointDescriptor,
>)
    ensures
        found == first_bulk(endpoints@, direction),
{
    let mut i: usize = 0;
    assert(endpoints@.skip(0) =~= endpoints@);
    while i < endpoints.len()
        invariant
            i <= endpoints@.len(),
            first_bulk(endpoints@, direction) == first_bulk(endpoints@.skip(i as int), direction),
        decreases endpoints@.len() - i,
    {
        let endpoint: EndpointDescriptor = endpoints[i];
        if endpoint.transfer_type == TransferType::Bulk && endpoint.direction == direction {
            return Some(endpoint);
        }
        assert(endpoints@.skip(i as int).drop_first() =~= endpoints@.skip(i + 1));
        i = i + 1;
    }
    None
}

fn find_in_alt_settings(
    configuration_value: u8,
    interface_number: u8,
    alt_settings: &Vec<AltSettingDescriptor>,
) -> (found: Option<AoaEndpoints>)
    ensures
        found == alt_settings_endpoints(configuration_value, interface_number, alt_settings@),
{
    let mut i: usize = 0;
    assert(alt_settings@.skip(0) =~= alt_settings@);
    while i < alt_settings.len()
        invariant
            i <= alt_settings@.len(),
            alt_settings_endpoints(configuration_value, interface_number, alt_settings@)
                == alt_settings_endpoints(
                configuration_value,
                interface_number,
                alt_settings@.skip(i as int),
            ),
        decreases alt_settings@.len() - i,
    {
        let endpoints = &alt_settings[i].endpoints;
        assert(alt_settings@.skip(i as int).first() == alt_settings@[i as int]);
        if let Some(in_endpoint) = find_bulk(endpoints, TransferDirection::In) {
            if let Some(out_endpoint) = find_bulk(endpoints, TransferDirection::Out) {
                return Some(
                    AoaEndpoints {
                        configuration_value,
                        interface_number,
                        in_endpoint_address: in_endpoint.address,
                        out_endpoint_address: out_endpoint.address,
                        max_packet_size: in_endpoint.max_packet_size,
                    },
                );
            }
        }
        assert(alt_settings@.skip(i as int).drop_first() =~= alt_settings@.skip(i + 1));
        i = i + 1;
    }
    None
}

fn find_in_interfaces(configuration_value: u8, interfaces: &Vec<InterfaceDescriptor>) -> (found:
    Option<AoaEndpoints>)
    ensures
        found == interfaces_endpoints(configuration_value, interfaces@),
{
    let mut i: usize = 0;
    assert(interfaces@.skip(0) =~= interfaces@);
    while i < interfaces.len()
        invariant
            i <= interfaces@.len(),
            interfaces_endpoints(configuration_value, interfaces@) == interfaces_endpoints(
                configuration_value,
                interfaces@.skip(i as int),
            ),
        decreases interfaces@.len() - i,
    {
        let interface = &interfaces[i];
        assert(interfaces@.skip(i as int).first() == interfaces@[i as int]);
        let found = find_in_alt_settings(
            configuration_value,
            interface.interface_number,
            &interface.alt_settings,
        );
        if found.is_some() {
            return found;
        }
        assert(interfaces@.skip(i as int).drop_first() =~= interfaces@.skip(i + 1));
        i = i + 1;
    }
    None
}

/// The first alternate setting of a device, in the order of its descriptors,
/// that has bulk endpoints in both directions.
pub fn find_aoa_endpoints(configurations: &Vec<ConfigurationDescriptor>) -> (found: Option<
    AoaEndpoints,
>)
    ensures
        found == aoa_endpoints(configurations@),
{
    let mut i: usize = 0;
    assert(configurations@.skip(0) =~= configurations@);
    while i < configurations.len()
        invariant
            i <= configurations@.len(),
            aoa_endpoints(configurations@) == aoa_endpoints(configurations@.skip(i as int)),
        decreases configurations@.len() - i,
    {
        let configuration = &configurations[i];
        assert(configurations@.skip(i as int).first() == configurations@[i as int]);
        let found = find_in_interfaces(
            configuration.configuration_value,
            &configuration.interfaces,
        );
        if found.is_some() {
            return found;
        }
        assert(configurations@.skip(i as int).drop_first() =~= configurations@.skip(i + 1));
        i = i + 1;
    }
    None
}

/// A vendor request to the device itself, with the value 0.
pub enum ControlTransfer {
    In { request: u8, index: u16, length: u16 },
    Out { request: u8, index: u16, data: Vec<u8> },
}

/// How far a phone has been switched to accessory mode.
#[derive(Debug, Clone, Copy, PartialEq, Eq, Structural)]
pub enum AoaSwitch {
    AskForProtocol,
    /// The string with this number comes next.
    SendString(u16),
    Start,
    /// Nothing is left to be done.
    Done,
}

/// The strings that the accessory introduces itself with: manufacturer, model,
/// description, version, address and serial number.
pub open spec fn accessory_string(string_id: u16) -> Seq<char> {
    if string_id == 0 || string_id == 1 {
        "Android"@
    } else if string_id == 2 {
        "Auto"@
    } else if string_id == 3 {
        "1.0"@
    } else {
        ""@
    }
}

/// Whether a transfer is the one to make in the given state.
pub open spec fn is_transfer_of(transfer: ControlTransfer, switch: AoaSwitch) -> bool {
    match switch {
        AoaSwitch::AskForProtocol => transfer == (ControlTransfer::In {
            request: REQUEST_GET_PROTOCOL,
            index: 0,
            length: 2,
        }),
        AoaSwitch::SendString(string_id) => {
            &&& transfer matches ControlTransfer::Out { request, index, data }
            &&& request == REQUEST_SEND_STRING
            &&& index == string_id
            &&& data@ == encode_utf8(accessory_string(string_id)).push(0)
        },
        AoaSwitch::Start => {
            &&& transfer matches ControlTransfer::Out { request, index, data }
            &&& request == REQUEST_START
            &&& index == 0
            &&& data@.len() == 0
        },
        AoaSwitch::Done => false,
    }
}

/// A text as it is sent: its bytes and a terminating zero.
fn nul_terminated(text: &str) -> (bytes: Vec<u8>)
    ensures
        bytes@ == encode_utf8(text@).push(0),
{
    let mut bytes: Vec<u8> = Vec::new();
    bytes.extend_from_slice(text.as_bytes());
    assert(bytes@ =~= encode_utf8(text@));
    bytes.push(0);
    bytes
}

impl AoaSwitch {
    /// Where a phone stands after its reply to a transfer. Only a phone that
    /// speaks version 2 of the protocol is switched; a failed transfer after
    /// that is a failure of the whole.
    pub open spec fn after(self, reply: Result<Seq<u8>, ()>) -> Result<AoaSwitch, ()> {
        match self {
            AoaSwitch::AskForProtocol => if reply == Ok::<Seq<u8>, ()>(seq![2u8, 0]) {
                Ok(AoaSwitch::SendString(0))
            } else {
                Ok(AoaSwitch::Done)
            },
            AoaSwitch::SendString(string_id) => match reply {
                Ok(_) => if string_id + 1 < STRING_COUNT {
                    Ok(AoaSwitch::SendString((string_id + 1) as u16))
                } else {
                    Ok(AoaSwitch::Start)
                },
                Err(_) => Err(()),
            },
            AoaSwitch::Start => match reply {
                Ok(_) => Ok(AoaSwitch::Done),
                Err(_) => Err(()),
            },
            AoaSwitch::Done => Ok(AoaSwitch::Done),
        }
    }

    /// The transfer to make next.
    pub fn transfer(&self) -> (transfer: Option<ControlTransfer>)
        ensures
            match transfer {
                Some(transfer) => is_transfer_of(transfer, *self),
                None => self is Done,
            },
    {
        match *self {
            AoaSwitch::AskForProtocol => Some(
                ControlTransfer::In { request: REQUEST_GET_PROTOCOL, index: 0, length: 2 },
            ),
            AoaSwitch::SendString(string_id) => {
                let text: &str = match string_id {
                    0 => "Android",
                    1 => "Android",
                    2 => "Auto",
                    3 => "1.0",
                    _ => "",
                };
                Some(
                    ControlTransfer::Out {
                        request: REQUEST_SEND_STRING,
                        index: string_id,
                        data: nul_terminated(text),
                    },
                )
            },
            AoaSwitch::Start => Some(
                ControlTransfer::Out { request: REQUEST_START, index: 0, data: Vec::new() },
            ),
            AoaSwitch::Done => None,
        }
    }

    /// Takes in the reply to a transfer: the bytes that were read, none where
    /// something was written, or that it failed.
    pub fn advance(self, reply: Result<&[u8], ()>) -> (next: Result<AoaSwitch, ()>)
        ensures
            next == self.after(
                match reply {
                    Ok(bytes) => Ok(bytes@),
                    Err(_) => Err(()),
                },
            ),
    {
        match self {
            AoaSwitch::AskForProtocol => {
                if let Ok(bytes) = reply {
                    if bytes.len() == 2 && bytes[0] == 2 && bytes[1] == 0 {
                        assert(bytes@ =~= seq![2u8, 0]);
                        return Ok(AoaSwitch::SendString(0));
                    }
                }
                Ok(AoaSwitch::Done)
            },
            AoaSwitch::SendString(string_id) => match reply {
                Ok(_) => if string_id < STRING_COUNT - 1 {
                    Ok(AoaSwitch::SendString(string_id + 1))
                } else {
                    Ok(AoaSwitch::Start)
                },
                Err(_) => Err(()),
            },
            AoaSwitch::Start => match reply {
                Ok(_) => Ok(AoaSwitch::Done),
                Err(_) => Err(()),
            },
            AoaSwitch::Done => Ok(AoaSwitch::Done),
        }
    }
}

/// The states that a phone goes through when it replies as given, until one of
/// its replies ends the switching.
pub open spec fn switch_states(
    switch: AoaSwitch,
    replies: Seq<Result<Seq<u8>, ()>>,
) -> Seq<AoaSwitch>
    decreases replies.len(),
{
    if replies.len() == 0 {
        seq![switch]
    } else {
        match switch.after(replies.first()) {
            Ok(next) => seq![switch] + switch_states(next, replies.drop_first()),
            Err(_) => seq![switch],
        }
    }
}

/// A phone that speaks version 2 of the protocol, and takes all that it is
/// sent, gets the strings in their order and is then started.
pub proof fn a_willing_phone_is_switched(replies: Seq<Result<Seq<u8>, ()>>)
    requires
        replies.len() == STRING_COUNT + 2,
        replies[0] == Ok::<Seq<u8>, ()>(seq![2u8, 0]),
        forall|i: int| 0 < i < replies.len() ==> (#[trigger] replies[i]) is Ok,
    ensures
        switch_states(AoaSwitch::AskForProtocol, replies) == seq![
            AoaSwitch::AskForProtocol,
            AoaSwitch::SendString(0),
            AoaSwitch::SendString(1),
            AoaSwitch::SendString(2),
            AoaSwitch::SendString(3),
            AoaSwitch::SendString(4),
            AoaSwitch::SendString(5),
            AoaSwitch::Start,
            AoaSwitch::Done,
        ],
{
    reveal_with_fuel(switch_states, 10);
}

/// A phone that answers anything else to the first request is left alone.
pub proof fn other_phones_are_left_alone(reply: Result<Seq<u8>, ()>)
    requires
        reply != Ok::<Seq<u8>, ()>(seq![2u8, 0]),
    ensures
        switch_states(AoaSwitch::AskForProtocol, seq![reply]) == seq![
            AoaSwitch::AskForProtocol,
            AoaSwitch::Done,
        ],
{
    reveal_with_fuel(switch_states, 3);
}

/// A device is a phone in accessory mode by two numbers of its vendor, 0x18d1, and
/// of the product, 0x2d00 or 0x2d01, and not otherwise.
pub proof fn an_accessory_is_known_by_its_numbers(vendor_id: u16, product_id: u16)
    ensures
        is_accessory(vendor_id, product_id) <==> vendor_id == 0x18d1 && (product_id == 0x2d00
            || product_id == 0x2d01),
{
}

/// Of the endpoints of a setting, the first one counts that transfers in bulk in
/// the wanted direction.
pub proof fn the_first_bulk_endpoint_counts(
    endpoints: Seq<EndpointDescriptor>,
    direction: TransferDirection,
)
    ensures
        match first_bulk(endpoints, direction) {
            Some(found) => exists|i: int|
                {
                    &&& 0 <= i < endpoints.len()
                    &&& #[trigger] endpoints[i] == found
                    &&& found.transfer_type is Bulk
                    &&& found.direction == direction
                    &&& forall|j: int|
                        0 <= j < i ==> !((#[trigger] endpoints[j]).transfer_type is Bulk
                            && endpoints[j].direction == direction)
                },
            None => forall|j: int|
                0 <= j < endpoints.len() ==> !((#[trigger] endpoints[j]).transfer_type is Bulk
                    && endpoints[j].direction == direction),
        },
    decreases endpoints.len(),
{
    if endpoints.len() > 0 {
        let first = endpoints.first();
        let rest = endpoints.drop_first();
        if first.transfer_type is Bulk && first.direction == direction {
            assert(endpoints[0] == first);
        } else {
            the_first_bulk_endpoint_counts(rest, direction);
            assert forall|j: int| 0 < j < endpoints.len() implies endpoints[j] == #[trigger] rest[j
                - 1] by {}
            if let Some(found) = first_bulk(rest, direction) {
                let i = choose|i: int|
                    {
                        &&& 0 <= i < rest.len()
                        &&& #[trigger] rest[i] == found
                        &&& found.transfer_type is Bulk
                        &&& found.direction == direction
                        &&& forall|j: int|
                            0 <= j < i ==> !((#[trigger] rest[j]).transfer_type is Bulk
                                && rest[j].direction == direction)
                    };
                assert(endpoints[i + 1] == found);
                assert forall|j: int| 0 <= j < i + 1 implies !((
                #[trigger] endpoints[j]).transfer_type is Bulk && endpoints[j].direction
                    == direction) by {
                    if j > 0 {
                        assert(endpoints[j] == rest[j - 1]);
                    }
                }
            } else {
                assert forall|j: int| 0 <= j < endpoints.len() implies !((
                #[trigger] endpoints[j]).transfer_type is Bulk && endpoints[j].direction
                    == direction) by {
                    if j > 0 {
                        assert(endpoints[j] == rest[j - 1]);
                    }
                }
            }
        }
    }
}

/// Whether a setting has bulk endpoints in both directions.
pub open spec fn is_talkative(alt_setting: AltSettingDescriptor) -> bool {
    exists|i: int, o: int|
        {
            &&& 0 <= i < alt_setting.endpoints@.len()
            &&& 0 <= o < alt_setting.endpoints@.len()
            &&& (#[trigger] alt_setting.endpoints@[i]).transfer_type is Bulk
            &&& alt_setting.endpoints@[i].direction is In
            &&& (#[trigger] alt_setting.endpoints@[o]).transfer_type is Bulk
            &&& alt_setting.endpoints@[o].direction is Out
        }
}

/// A setting can be talked to if and only if it has bulk endpoints in both
/// directions, and then the first of each is taken, with the packet size of the one
/// that is read from.
pub proof fn a_setting_needs_both_directions(
    configuration_value: u8,
    interface_number: u8,
    alt_setting: AltSettingDescriptor,
)
    ensures
        match alt_setting_endpoints(configuration_value, interface_number, alt_setting) {
            Some(found) => {
                &&& is_talkative(alt_setting)
                &&& found.configuration_value == configuration_value
                &&& found.interface_number == interface_number
                &&& exists|i: int|
                    {
                        &&& 0 <= i < alt_setting.endpoints@.len()
                        &&& (#[trigger] alt_setting.endpoints@[i]).transfer_type is Bulk
                        &&& alt_setting.endpoints@[i].direction is In
                        &&& alt_setting.endpoints@[i].address == found.in_endpoint_address
                        &&& alt_setting.endpoints@[i].max_packet_size == found.max_packet_size
                        &&& forall|j: int|
                            0 <= j < i ==> !((
                            #[trigger] alt_setting.endpoints@[j]).transfer_type is Bulk
                                && alt_setting.endpoints@[j].direction is In)
                    }
                &&& exists|o: int|
                    {
                        &&& 0 <= o < alt_setting.endpoints@.len()
                        &&& (#[trigger] alt_setting.endpoints@[o]).transfer_type is Bulk
                        &&& alt_setting.endpoints@[o].direction is Out
                        &&& alt_setting.endpoints@[o].address == found.out_endpoint_address
                        &&& forall|j: int|
                            0 <= j < o ==> !((
                            #[trigger] alt_setting.endpoints@[j]).transfer_type is Bulk
                                && alt_setting.endpoints@[j].direction is Out)
                    }
            },
            None => !is_talkative(alt_setting),
        },
{
    the_first_bulk_endpoint_counts(alt_setting.endpoints@, TransferDirection::In);
    the_first_bulk_endpoint_counts(alt_setting.endpoints@, TransferDirection::Out);
}

/// Where one configuration, one of its interfaces and one of the settings of that
/// are so that all that comes before them, in the order of the descriptors, cannot
/// be talked to, and that setting can, the endpoints of that setting are taken.
pub proof fn the_first_setting_that_talks_is_taken(
    configurations: Seq<ConfigurationDescriptor>,
    c: int,
    i: int,
    a: int,
)
    requires
        0 <= c < configurations.len(),
        0 <= i < configurations[c].interfaces@.len(),
        0 <= a < configurations[c].interfaces@[i].alt_settings@.len(),
        is_talkative(configurations[c].interfaces@[i].alt_settings@[a]),
        forall|d: int, j: int, b: int|
            0 <= d < c && 0 <= j < configurations[d].interfaces@.len() && 0 <= b
                < configurations[d].interfaces@[j].alt_settings@.len() ==> !is_talkative(
                #[trigger] configurations[d].interfaces@[j].alt_settings@[b],
            ),
        forall|j: int, b: int|
            0 <= j < i && 0 <= b < configurations[c].interfaces@[j].alt_settings@.len()
                ==> !is_talkative(#[trigger] configurations[c].interfaces@[j].alt_settings@[b]),
        forall|b: int|
            0 <= b < a ==> !is_talkative(
                #[trigger] configurations[c].interfaces@[i].alt_settings@[b],
            ),
    ensures
        aoa_endpoints(configurations) == alt_setting_endpoints(
            configurations[c].configuration_value,
            configurations[c].interfaces@[i].interface_number,
            configurations[c].interfaces@[i].alt_settings@[a],
        ),
        aoa_endpoints(configurations) is Some,
    decreases c,
{
    let configuration = configurations.first();
    let rest = configurations.drop_first();
    if c == 0 {
        lemma_first_interface(configuration.configuration_value, configuration.interfaces@, i, a);
    } else {
        assert forall|j: int, b: int|
            0 <= j < configuration.interfaces@.len() && 0 <= b
                < configuration.interfaces@[j].alt_settings@.len() implies !is_talkative(
            #[trigger] configuration.interfaces@[j].alt_settings@[b],
        ) by {
            assert(configuration == configurations[0]);
            assert(!is_talkative(configurations[0].interfaces@[j].alt_settings@[b]));
        }
        lemma_no_interface(configuration.configuration_value, configuration.interfaces@);
        assert(rest[c - 1] == configurations[c]);
        assert forall|d: int, j: int, b: int|
            0 <= d < c - 1 && 0 <= j < rest[d].interfaces@.len() && 0 <= b
                < rest[d].interfaces@[j].alt_settings@.len() implies !is_talkative(
            #[trigger] rest[d].interfaces@[j].alt_settings@[b],
        ) by {
            assert(rest[d] == configurations[d + 1]);
            assert(!is_talkative(configurations[d + 1].interfaces@[j].alt_settings@[b]));
        }
        the_first_setting_that_talks_is_taken(rest, c - 1, i, a);
    }
}

/// A device without a setting that has bulk endpoints in both directions is not
/// talked to.
pub proof fn a_mute_device_is_left_alone(configurations: Seq<ConfigurationDescriptor>)
    requires
        forall|d: int, j: int, b: int|
            0 <= d < configurations.len() && 0 <= j < configurations[d].interfaces@.len() && 0 <= b
                < configurations[d].interfaces@[j].alt_settings@.len() ==> !is_talkative(
                #[trigger] configurations[d].interfaces@[j].alt_settings@[b],
            ),
    ensures
        aoa_endpoints(configurations) is None,
    decreases configurations.len(),
{
    if configurations.len() > 0 {
        let configuration = configurations.first();
        let rest = configurations.drop_first();
        assert forall|j: int, b: int|
            0 <= j < configuration.interfaces@.len() && 0 <= b
                < configuration.interfaces@[j].alt_settings@.len() implies !is_talkative(
            #[trigger] configuration.interfaces@[j].alt_settings@[b],
        ) by {
            assert(configuration == configurations[0]);
            assert(!is_talkative(configurations[0].interfaces@[j].alt_settings@[b]));
        }
        lemma_no_interface(configuration.configuration_value, configuration.interfaces@);
        assert forall|d: int, j: int, b: int|
            0 <= d < rest.len() && 0 <= j < rest[d].interfaces@.len() && 0 <= b
                < rest[d].interfaces@[j].alt_settings@.len() implies !is_talkative(
            #[trigger] rest[d].interfaces@[j].alt_settings@[b],
        ) by {
            assert(rest[d] == configurations[d + 1]);
            assert(!is_talkative(configurations[d + 1].interfaces@[j].alt_settings@[b]));
        }
        a_mute_device_is_left_alone(rest);
    }
}

proof fn lemma_first_interface(
    configuration_value: u8,
    interfaces: Seq<InterfaceDescriptor>,
    i: int,
    a: int,
)
    requires
        0 <= i < interfaces.len(),
        0 <= a < interfaces[i].alt_settings@.len(),
        is_talkative(interfaces[i].alt_settings@[a]),
        forall|j: int, b: int|
            0 <= j < i && 0 <= b < interfaces[j].alt_settings@.len() ==> !is_talkative(
                #[trigger] interfaces[j].alt_settings@[b],
            ),
        forall|b: int|
            0 <= b < a ==> !is_talkative(#[trigger] interfaces[i].alt_settings@[b]),
    ensures
        interfaces_endpoints(configuration_value, interfaces) == alt_setting_endpoints(
            configuration_value,
            interfaces[i].interface_number,
            interfaces[i].alt_settings@[a],
        ),
        interfaces_endpoints(configuration_value, interfaces) is Some,
    decreases i,
{
    let interface = interfaces.first();
    let rest = interfaces.drop_first();
    if i == 0 {
        lemma_first_setting(
            configuration_value,
            interface.interface_number,
            interface.alt_settings@,
            a,
        );
    } else {
        assert forall|b: int| 0 <= b < interface.alt_settings@.len() implies !is_talkative(
            #[trigger] interface.alt_settings@[b],
        ) by {
            assert(interface == interfaces[0]);
            assert(!is_talkative(interfaces[0].alt_settings@[b]));
        }
        lemma_no_setting(configuration_value, interface.interface_number, interface.alt_settings@);
        assert(rest[i - 1] == interfaces[i]);
        assert forall|j: int, b: int|
            0 <= j < i - 1 && 0 <= b < rest[j].alt_settings@.len() implies !is_talkative(
            #[trigger] rest[j].alt_settings@[b],
        ) by {
            assert(rest[j] == interfaces[j + 1]);
            assert(!is_talkative(interfaces[j + 1].alt_settings@[b]));
        }
        lemma_first_interface(configuration_value, rest, i - 1, a);
    }
}

proof fn lemma_no_interface(configuration_value: u8, interfaces: Seq<InterfaceDescriptor>)
    requires
        forall|j: int, b: int|
            0 <= j < interfaces.len() && 0 <= b < interfaces[j].alt_settings@.len()
                ==> !is_talkative(#[trigger] interfaces[j].alt_settings@[b]),
    ensures
        interfaces_endpoints(configuration_value, interfaces) is None,
    decreases interfaces.len(),
{
    if interfaces.len() > 0 {
        let interface = interfaces.first();
        let rest = interfaces.drop_first();
        assert forall|b: int| 0 <= b < interface.alt_settings@.len() implies !is_talkative(
            #[trigger] interface.alt_settings@[b],
        ) by {
            assert(interface == interfaces[0]);
            assert(!is_talkative(interfaces[0].alt_settings@[b]));
        }
        lemma_no_setting(configuration_value, interface.interface_number, interface.alt_settings@);
        assert forall|j: int, b: int|
            0 <= j < rest.len() && 0 <= b < rest[j].alt_settings@.len() implies !is_talkative(
            #[trigger] rest[j].alt_settings@[b],
        ) by {
            assert(rest[j] == interfaces[j + 1]);
            assert(!is_talkative(interfaces[j + 1].alt_settings@[b]));
        }
        lemma_no_interface(configuration_value, rest);
    }
}

proof fn lemma_first_setting(
    configuration_value: u8,
    interface_number: u8,
    alt_settings: Seq<AltSettingDescriptor>,
    a: int,
)
    requires
        0 <= a < alt_settings.len(),
        is_talkative(alt_settings[a]),
        forall|b: int| 0 <= b < a ==> !is_talkative(#[trigger] alt_settings[b]),
    ensures
        alt_settings_endpoints(configuration_value, interface_number, alt_settings)
            == alt_setting_endpoints(configuration_value, interface_number, alt_settings[a]),
        alt_settings_endpoints(configuration_value, interface_number, alt_settings) is Some,
    decreases a,
{
    a_setting_needs_both_directions(configuration_value, interface_number, alt_settings[0]);
    if a > 0 {
        let rest = alt_settings.drop_first();
        assert(!is_talkative(alt_settings[0]));
        assert(rest[a - 1] == alt_settings[a]);
        assert forall|b: int| 0 <= b < a - 1 implies !is_talkative(#[trigger] rest[b]) by {
            assert(rest[b] == alt_settings[b + 1]);
        }
        lemma_first_setting(configuration_value, interface_number, rest, a - 1);
    }
}

proof fn lemma_no_setting(
    configuration_value: u8,
    interface_number: u8,
    alt_settings: Seq<AltSettingDescriptor>,
)
    requires
        forall|b: int|
            0 <= b < alt_settings.len() ==> !is_talkative(#[trigger] alt_settings[b]),
    ensures
        alt_settings_endpoints(configuration_value, interface_number, alt_settings) is None,
    decreases alt_settings.len(),
{
    if alt_settings.len() > 0 {
        let rest = alt_settings.drop_first();
        a_setting_needs_both_directions(configuration_value, interface_number, alt_settings[0]);
        assert(!is_talkative(alt_settings[0]));
        assert forall|b: int| 0 <= b < rest.len() implies !is_talkative(#[trigger] rest[b]) by {
            assert(rest[b] == alt_settings[b + 1]);
        }
        lemma_no_setting(configuration_value, interface_number, rest);
    }
}

/// The transfers by which a phone is switched. It is asked for two bytes by
/// request 51; it is sent each string, with the number of the string and a zero at
/// its end, by request 52; and it is started by request 53, without any bytes.
pub proof fn a_phone_is_switched_by_these_transfers(transfer: ControlTransfer, switch: AoaSwitch)
    requires
        is_transfer_of(transfer, switch),
    ensures
        switch is AskForProtocol ==> transfer == (ControlTransfer::In {
            request: 51,
            index: 0,
            length: 2,
        }),
        switch matches AoaSwitch::SendString(string_id) ==> {
            &&& transfer matches ControlTransfer::Out { request, index, data }
            &&& request == 52
            &&& index == string_id
            &&& data@.len() > 0
            &&& data@.last() == 0
            &&& data@.drop_last() == encode_utf8(
                if string_id < 2 {
                    "Android"@
                } else if string_id == 2 {
                    "Auto"@
                } else if string_id == 3 {
                    "1.0"@
                } else {
                    ""@
                },
            )
        },
        switch is Start ==> {
            &&& transfer matches ControlTransfer::Out { request, index, data }
            &&& request == 53
            &&& index == 0
            &&& data@.len() == 0
        },
        !(switch is Done),
{
    if let AoaSwitch::SendString(string_id) = switch {
        let text = encode_utf8(accessory_string(string_id));
        assert(text.push(0).drop_last() =~= text);
    }
}

/// A phone that refuses a transfer, after it has answered the first one, is given
/// up at once.
pub proof fn a_refusal_ends_the_switching(switch: AoaSwitch)
    requires
        switch is SendString || switch is Start,
    ensures
        switch.after(Err(())) is Err,
{
}

} // verus!
