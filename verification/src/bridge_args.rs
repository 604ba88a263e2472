//! What the bridge is started with.
use crate::text;
use crate::text::quote;
use vstd::prelude::*;

verus! {

/// What the bridge is started with.
#[derive(Debug)]
pub struct Args {
    /// Name as a producer.
    pub producer_name: String,
    /// Where the signalling server is.
    pub signalling_host: String,
    /// The signalling server's port.
    pub signalling_port: u16,
    /// Where the robot's server is.
    pub grpc_host: String,
    /// The robot's server's port.
    pub grpc_port: u16,
}

impl Default for Args {
    fn default() -> (r: Args)
        ensures
            r.producer_name@ == "grpc_webrtc_bridge"@,
            r.signalling_host@ == "127.0.0.1"@,
            r.signalling_port == 8443,
            r.grpc_host@ == "127.0.0.1"@,
            r.grpc_port == 50051,
    {
        Args {
            producer_name: "grpc_webrtc_bridge".to_owned(),
            signalling_host: "127.0.0.1".to_owned(),
            signalling_port: 8443,
            grpc_host: "127.0.0.1".to_owned(),
            grpc_port: 50051,
        }
    }
}

/// The address of the signalling server.
pub fn signalling_uri(args: &Args) -> (r: String)
    ensures
        r@ == "ws://"@ + text::endpoint(args.signalling_host@, args.signalling_port),
{
    text::with_endpoint("ws://", args.signalling_host.as_str(), args.signalling_port)
}

/// The address of the robot's server.
pub fn grpc_address(args: &Args) -> (r: String)
    ensures
        r@ == "http://"@ + text::endpoint(args.grpc_host@, args.grpc_port),
{
    text::with_endpoint("http://", args.grpc_host.as_str(), args.grpc_port)
}

/// What is logged of the arguments, line by line.
pub open spec fn displayed(args: Args) -> Seq<Seq<char>> {
    seq![
        "Args:"@,
        "Signalling server: "@ + text::endpoint(args.signalling_host@, args.signalling_port),
        "GRPC server: "@ + text::endpoint(args.grpc_host@, args.grpc_port),
        "Remote peer name: "@ + text::quoted(args.producer_name@),
    ]
}

/// What is logged of the arguments, line by line.
pub fn display_args(args: &Args) -> (r: Vec<String>)
    ensures
        r.deep_view() == displayed(*args),
{
    let mut lines: Vec<String> = Vec::new();
    lines.push("Args:".to_owned());
    lines.push(
        text::with_endpoint(
            "Signalling server: ",
            args.signalling_host.as_str(),
            args.signalling_port,
        ),
    );
    lines.push(text::with_endpoint("GRPC server: ", args.grpc_host.as_str(), args.grpc_port));
    let mut name = "Remote peer name: ".to_owned();
    name.append(quote(args.producer_name.as_str()).as_str());
    lines.push(name);
    assert(lines.deep_view() =~= displayed(*args));
    lines
}

/// Each argument is displayed on the line for it: changing the name of the producer changes only
/// the last line, and so on.
pub proof fn lemma_what_is_displayed(args: Args)
    ensures
        displayed(args).len() == 4,
        displayed(args)[0] == "Args:"@,
        displayed(args)[1] == "Signalling server: "@ + (args.signalling_host@ + ":"@
            + text::decimal(args.signalling_port as nat)),
        displayed(args)[2] == "GRPC server: "@ + (args.grpc_host@ + ":"@ + text::decimal(
            args.grpc_port as nat,
        )),
        displayed(args)[3] == "Remote peer name: "@ + text::quoted(args.producer_name@),
{
}

} // verus!
