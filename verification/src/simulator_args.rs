//! What the client is started with.
use crate::text;
use crate::text::push_decimal;
use vstd::prelude::*;

verus! {

/// What the client is started with.
#[derive(Debug)]
pub struct Args {
    /// Where the signalling server is.
    pub signalling_host: String,
    /// The signalling server's port.
    pub signalling_port: u16,
    /// Name of the producer to connect to.
    pub producer_name: String,
    /// How many commands to send in a second.
    pub frequency: u16,
    /// Whether the frequency is to grow.
    pub bench_mode: bool,
}

impl Default for Args {
    fn default() -> (r: Args)
        ensures
            r.signalling_host@ == "127.0.0.1"@,
            r.signalling_port == 8443,
            r.producer_name@ == "grpc_webrtc_bridge"@,
            r.frequency == 100,
            !r.bench_mode,
    {
        Args {
            signalling_host: "127.0.0.1".to_owned(),
            signalling_port: 8443,
            producer_name: "grpc_webrtc_bridge".to_owned(),
            frequency: 100,
            bench_mode: false,
        }
    }
}

/// The address of the signalling server.
pub fn signalling_uri(args: &Args) -> (r: String)
    ensures
        r@ == "ws://"@ + text::endpoint(args.signalling_host@, args.signalling_port),
{
    text::with_endpoint("ws://", args.signalling_host.as_str(), args.signalling_port)
}

/// What is logged of the arguments, line by line.
pub open spec fn displayed(args: Args) -> Seq<Seq<char>> {
    seq![
        "Args:"@,
        "Signalling server: "@ + text::endpoint(args.signalling_host@, args.signalling_port),
        "producer name: "@ + args.producer_name@,
        "Parameters: frequency "@ + text::decimal(args.frequency as nat) + ", benchmarking "@
            + text::truth(args.bench_mode),
    ]
}

/// What is logged of the arguments, line by line.
pub fn display_args(args: &Args) -> (r: Vec<String>)
    ensures
        r.deep_view() == displayed(*args),
{
    let mut lines: Vec<String> = Vec::new();
    lines.push("Args:".to_owned());
    lines.push(
        text::with_endpoint(
            "Signalling server: ",
            args.signalling_host.as_str(),
            args.signalling_port,
        ),
    );
    let mut name = "producer name: ".to_owned();
    name.append(args.producer_name.as_str());
    lines.push(name);
    let mut parameters = "Parameters: frequency ".to_owned();
    push_decimal(&mut parameters, args.frequency as u64);
    parameters.append(", benchmarking ");
    parameters.append(
        if args.bench_mode {
            "true"
        } else {
            "false"
        },
    );
    lines.push(parameters);
    assert(lines.deep_view() =~= displayed(*args));
    lines
}

/// Each argument is displayed on the line for it.
pub proof fn lemma_what_is_displayed(args: Args)
    ensures
        displayed(args).len() == 4,
        displayed(args)[0] == "Args:"@,
        displayed(args)[1] == "Signalling server: "@ + (args.signalling_host@ + ":"@
            + text::decimal(args.signalling_port as nat)),
        displayed(args)[2] == "producer name: "@ + args.producer_name@,
        args.bench_mode ==> displayed(args)[3] == "Parameters: frequency "@ + text::decimal(
            args.frequency as nat,
        ) + ", benchmarking "@ + "true"@,
        !args.bench_mode ==> displayed(args)[3] == "Parameters: frequency "@ + text::decimal(
            args.frequency as nat,
        ) + ", benchmarking "@ + "false"@,
{
}

} // verus!
