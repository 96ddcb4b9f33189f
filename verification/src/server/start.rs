//! How the servers are started, and what is said of them.
use crate::text::{decimal, parse_unsigned, push_decimal, unsigned};
use base64::prelude::{Engine, BASE64_STANDARD};
use vstd::prelude::*;
use vstd::string::StringSliceAdditionalSpecFns;

verus! {

/// How large the tables for header compression may grow.
pub const MAX_TABLE_SIZE: u64 = 65536;

/// How many streams may wait for header compression.
pub const MAX_BLOCKED_STREAMS: u16 = 10;

/// The protocol that the servers speak.
pub const PROTOCOL: &'static str = "h3";

/// The number of the configuration for encrypted hellos.
pub const ECH_CONFIG_ID: u8 = 7;

/// The name that is shown in an encrypted hello.
pub const ECH_PUBLIC_NAME: &'static str = "public.example";

/// The character for a number below 64 in base64.
pub open spec fn base64_char(n: nat) -> char {
    if n < 26 {
        ('A' as nat + n) as char
    } else if n < 52 {
        ('a' as nat + (n - 26)) as char
    } else if n < 62 {
        ('0' as nat + (n - 52)) as char
    } else if n == 62 {
        '+'
    } else {
        '/'
    }
}

/// Bytes in base64, with padding: four characters for every three bytes, six bits in each.
pub open spec fn base64_standard(data: Seq<u8>) -> Seq<char>
    decreases data.len(),
{
    if data.len() == 0 {
        Seq::empty()
    } else if data.len() == 1 {
        let v = data[0] as nat * 16;
        seq![base64_char(v / 64), base64_char(v % 64), '=', '=']
    } else if data.len() == 2 {
        let v = data[0] as nat * 1024 + data[1] as nat * 4;
        seq![base64_char(v / 4096), base64_char(v / 64 % 64), base64_char(v % 64), '=']
    } else {
        let v = data[0] as nat * 65536 + data[1] as nat * 256 + data[2] as nat;
        seq![
            base64_char(v / 262144),
            base64_char(v / 4096 % 64),
            base64_char(v / 64 % 64),
            base64_char(v % 64),
        ] + base64_standard(data.skip(3))
    }
}

/// `base64::Engine::encode` of `base64::prelude::BASE64_STANDARD`: base64 with the standard
/// alphabet and padding.
#[verifier::external_body]
pub(crate) fn base64_text(data: &[u8]) -> (text: String)
    requires
        data@.len() <= usize::MAX / 4,
    ensures
        text@ == base64_standard(data@),
{
    BASE64_STANDARD.encode(data)
}

/// The address that a server listens on.
pub open spec fn listen_address(port: u16, windows: bool) -> Seq<char> {
    (if windows {
        "127.0.0.1:"@
    } else {
        "[::]:"@
    }) + decimal(port as nat)
}

/// The address that a server listens on.
pub fn to_listen_address(port: u16, windows: bool) -> (address: String)
    ensures
        address@ == listen_address(port, windows),
{
    let mut address = if windows {
        "127.0.0.1:".to_owned()
    } else {
        "[::]:".to_owned()
    };
    push_decimal(&mut address, port as u64);
    address
}

/// The port of the reverse proxy, from the environment; any where it says nothing, and none where
/// it names no port.
pub fn proxy_port(value: Option<&str>) -> (port: Option<u16>)
    ensures
        match value {
            None => port == Some(0u16),
            Some(v) => match unsigned(v.spec_bytes(), u16::MAX as nat) {
                Some(n) => port == Some(n as u16),
                None => port is None,
            },
        },
{
    match value {
        None => Some(0),
        Some(v) => match parse_unsigned(v.as_bytes(), 0xffff) {
            Some(n) => Some(n as u16),
            None => None,
        },
    }
}

/// The certificate of the reverse proxy, and the port that it hands requests on to.
pub fn reverse_proxy_config(mochitest: bool) -> (config: (&'static str, i32))
    ensures
        config == (if mochitest {
            ("mochitest-cert", 8888i32)
        } else {
            (" HTTP2 Test Cert", -1i32)
        }),
{
    if mochitest {
        ("mochitest-cert", 8888)
    } else {
        (" HTTP2 Test Cert", -1)
    }
}

/// Numbers of ports, with commas between them and an "and" before the last.
pub open spec fn port_list(ports: Seq<u16>) -> Seq<char>
    decreases ports.len(),
{
    if ports.len() == 0 {
        Seq::empty()
    } else if ports.len() == 1 {
        decimal(ports[0] as nat)
    } else {
        port_list_start(ports.drop_last()) + " and "@ + decimal(ports.last() as nat)
    }
}

/// Numbers of ports, with commas between them.
pub open spec fn port_list_start(ports: Seq<u16>) -> Seq<char>
    decreases ports.len(),
{
    if ports.len() == 0 {
        Seq::empty()
    } else if ports.len() == 1 {
        decimal(ports[0] as nat)
    } else {
        port_list_start(ports.drop_last()) + ", "@ + decimal(ports.last() as nat)
    }
}

/// What is said of the servers once they listen.
pub open spec fn listening(ports: Seq<u16>, ech_config: Seq<u8>) -> Seq<char> {
    "HTTP3 server listening on ports "@ + port_list(ports) + ". EchConfig is @"@
        + base64_standard(ech_config) + "@"@
}

fn push_ports(out: &mut String, ports: &Vec<u16>)
    requires
        ports@.len() >= 2,
    ensures
        final(out)@ == old(out)@ + port_list(ports@),
{
    let ghost start = out@;
    push_decimal(out, ports[0] as u64);
    let mut i: usize = 1;
    let last: usize = ports.len() - 1;
    assert(ports@.take(1)[0] == ports@[0]);
    while i < last
        invariant
            1 <= i <= last,
            last == ports@.len() - 1,
            out@ == start + port_list_start(ports@.take(i as int)),
        decreases last - i,
    {
        out.append(", ");
        push_decimal(out, ports[i] as u64);
        proof {
            assert(ports@.take(i + 1).drop_last() =~= ports@.take(i as int));
            assert(out@ =~= start + port_list_start(ports@.take(i + 1)));
        }
        i += 1;
    }
    out.append(" and ");
    push_decimal(out, ports[last] as u64);
    proof {
        assert(ports@.drop_last() =~= ports@.take(last as int));
        assert(out@ =~= start + port_list(ports@));
    }
}

/// What is said of the servers once they listen: their ports, and the configuration for encrypted
/// hellos between two at signs.
pub fn listening_message(ports: &Vec<u16>, ech_config: &[u8]) -> (message: String)
    requires
        ports@.len() >= 2,
        ech_config@.len() <= usize::MAX / 4,
    ensures
        message@ == listening(ports@, ech_config@),
{
    let mut message = "HTTP3 server listening on ports ".to_owned();
    push_ports(&mut message, ports);
    message.append(". EchConfig is @");
    let config = base64_text(ech_config);
    message.append(config.as_str());
    message.append("@");
    message
}

/// A response with a frame that may not stand in it: a head, data, and a frame with which a push
/// is cancelled.
pub open spec fn wrong_frame() -> Seq<u8> {
    seq![
        0x01, 0x06, 0x00, 0x00, 0xd9, 0x54, 0x01, 0x37,
        0x00, 0x03, 0x61, 0x62, 0x63,
        0x03, 0x01, 0x05,
    ]
}

/// What is sent on a stream that has something to read: only the streams of requests get an
/// answer, and it is wrong.
pub fn wrong_frame_response(is_bidi: bool, is_client_initiated: bool) -> (response: Option<Vec<u8>>)
    ensures
        response is Some <==> is_bidi && is_client_initiated,
        response matches Some(r) ==> r@ == wrong_frame(),
{
    if is_bidi && is_client_initiated {
        let response: Vec<u8> = vec![
            0x01, 0x06, 0x00, 0x00, 0xd9, 0x54, 0x01, 0x37,
            0x00, 0x03, 0x61, 0x62, 0x63,
            0x03, 0x01, 0x05,
        ];
        assert(response@ =~= wrong_frame());
        Some(response)
    } else {
        None
    }
}

/// No at sign stands in base64, so the configuration can be told from what is around it, and
/// there are four characters for every three bytes or part of them.
pub proof fn law_base64(data: Seq<u8>)
    ensures
        base64_standard(data).len() == (data.len() + 2) / 3 * 4,
        forall|i: int|
            0 <= i < base64_standard(data).len() ==> #[trigger] base64_standard(data)[i] != '@',
    decreases data.len(),
{
    if data.len() >= 3 {
        law_base64(data.skip(3));
        let rest = base64_standard(data.skip(3));
        let all = base64_standard(data);
        assert forall|i: int| 0 <= i < all.len() implies #[trigger] all[i] != '@' by {
            if i >= 4 {
                assert(all[i] == rest[i - 4]);
            }
        }
    }
}

/// A server listens on every address but on Windows, where it listens on the loopback address;
/// the address ends in its port.
pub proof fn law_listen_addresses(port: u16, windows: bool, address: String)
    requires
        call_ensures(to_listen_address, (port, windows), address),
    ensures
        windows ==> address@ == "127.0.0.1:"@ + decimal(port as nat),
        !windows ==> address@ == "[::]:"@ + decimal(port as nat),
{
}

/// The port that is named is taken, any where none is named, and none where what is named is no
/// port.
pub proof fn law_proxy_ports(value: Option<&str>, port: Option<u16>, n: nat)
    requires
        call_ensures(proxy_port, (value,), port),
    ensures
        value is None ==> port == Some(0u16),
        value matches Some(v) ==> v@ == decimal(n) && n <= 0xffff ==> port == Some(n as u16),
        value matches Some(v) ==> (port is None <==> unsigned(v.spec_bytes(), 0xffff) is None),
{
    if n <= 0xffff {
        crate::text::law_decimal_round_trip(n, 0xffff);
    }
}

/// The two ways to run the reverse proxy: with the port of the test server and its certificate,
/// or without a port until a request names one.
pub proof fn law_reverse_proxy_config(mochitest: bool, config: (&'static str, i32))
    requires
        call_ensures(reverse_proxy_config, (mochitest,), config),
    ensures
        mochitest ==> config.0@ == "mochitest-cert"@ && config.1 == 8888,
        !mochitest ==> config.0@ == " HTTP2 Test Cert"@ && config.1 == -1,
{
}

/// What is said of the servers names every port in order, with commas between all but the last
/// two, and ends in the configuration between two at signs.
pub proof fn law_listening_message(
    ports: Vec<u16>,
    ech_config: &[u8],
    message: String,
    more: Seq<u16>,
    last: u16,
)
    requires
        ports@.len() >= 2,
        ech_config@.len() <= usize::MAX / 4,
        call_ensures(listening_message, (&ports, ech_config), message),
        more.len() > 0,
    ensures
        message@ == "HTTP3 server listening on ports "@ + port_list(ports@)
            + ". EchConfig is @"@ + base64_standard(ech_config@) + "@"@,
        ports@.len() == 2 ==> port_list(ports@) == decimal(ports@[0] as nat) + " and "@ + decimal(
            ports@[1] as nat,
        ),
        port_list(more.push(last)) == port_list_start(more) + " and "@ + decimal(last as nat),
        port_list_start(more.push(last)) == port_list_start(more) + ", "@ + decimal(last as nat),
        more.len() == 1 ==> port_list_start(more) == decimal(more[0] as nat),
{
    assert(more.push(last).drop_last() =~= more);
    if ports@.len() == 2 {
        assert(port_list(ports@) == port_list_start(ports@.drop_last()) + " and "@ + decimal(
            ports@.last() as nat,
        ));
        assert(ports@.drop_last()[0] == ports@[0]);
    }
}

/// The wrong answer is a frame of headers, one of data, and one that cancels a push, each with
/// its length; it goes out on a stream that the client opened for a request, and on no other.
pub proof fn law_wrong_frame(
    is_bidi: bool,
    is_client_initiated: bool,
    response: Option<Vec<u8>>,
)
    requires
        call_ensures(wrong_frame_response, (is_bidi, is_client_initiated), response),
    ensures
        response is Some <==> is_bidi && is_client_initiated,
        response matches Some(r) ==> {
            let head = r@.take(8);
            let data = r@.subrange(8, 13);
            let cancel = r@.skip(13);
            &&& r@.len() == 16
            &&& head[0] == 0x01 && head[1] == head.len() - 2
            &&& data[0] == 0x00 && data[1] == data.len() - 2
            &&& data.skip(2) == seq![0x61u8, 0x62, 0x63]
            &&& cancel[0] == 0x03 && cancel[1] == cancel.len() - 2 && cancel[2] == 5
            &&& head.skip(2) == seq![0x00u8, 0x00, 0xd9, 0x54, 0x01, 0x37]
        },
{
    if let Some(r) = response {
        assert(r@.take(8).skip(2) =~= seq![0x00u8, 0x00, 0xd9, 0x54, 0x01, 0x37]);
        assert(r@.subrange(8, 13).skip(2) =~= seq![0x61u8, 0x62, 0x63]);
    }
}

/// What the servers agree on with a client: HTTP/3, tables for header compression of at most
/// sixty-four kibibytes with ten waiting streams, and the seventh configuration for hellos.
pub proof fn law_server_settings()
    ensures
        PROTOCOL@ == "h3"@,
        MAX_TABLE_SIZE == 64 * 1024,
        MAX_BLOCKED_STREAMS == 10,
        ECH_CONFIG_ID == 7,
        ECH_PUBLIC_NAME@ == "public.example"@,
{
}

}
