//! How the rendezvous token travels from the parent to the child it starts:
//! as a process argument or as an environment variable.

use vstd::prelude::*;
use vstd::string::*;

use crate::text::{same_text, strip_prefix};

verus! {

/// The way by which the child learns the rendezvous token.
#[derive(Clone, Copy, Debug, PartialEq, Eq, Structural)]
pub enum TokenTransport {
    /// A process argument made of `channel_name:` and the token.
    Argument,
    /// The environment variable `CHANNEL_NAME`, holding the token verbatim.
    Environment,
}

/// What becomes of the child's standard output.
#[derive(Clone, Copy, Debug, PartialEq, Eq, Structural)]
pub enum ChildOutput {
    /// The child writes to the parent's terminal as it runs.
    Inherit,
    /// The parent collects the output and prints it once the child has exited.
    Capture,
}

/// The two choices that tell the variants of the program apart.
#[derive(Clone, Copy, Debug, PartialEq, Eq, Structural)]
pub struct SessionConfig {
    pub token_transport: TokenTransport,
    pub child_output: ChildOutput,
}

/// What the parent hands to the process it starts.
#[derive(Debug, PartialEq, Eq)]
pub struct LaunchPlan {
    /// Arguments to add to the child's command line.
    pub arguments: Vec<String>,
    /// Variables to add to the child's environment, as name and value.
    pub variables: Vec<(String, String)>,
    /// Whether the parent collects the child's standard output.
    pub capture_output: bool,
}

/// The characters in front of the token in a process argument.
pub open spec fn argument_prefix() -> Seq<char> {
    seq!['c', 'h', 'a', 'n', 'n', 'e', 'l', '_', 'n', 'a', 'm', 'e', ':']
}

/// The name of the environment variable that holds the token.
pub open spec fn variable_name() -> Seq<char> {
    seq!['C', 'H', 'A', 'N', 'N', 'E', 'L', '_', 'N', 'A', 'M', 'E']
}

/// Whether `argument` is of the form that carries a token.
pub open spec fn carries_token(argument: Seq<char>) -> bool {
    argument_prefix().is_prefix_of(argument)
}

/// The argument that carries `token`.
pub open spec fn token_argument(token: Seq<char>) -> Seq<char> {
    argument_prefix() + token
}

/// The token of the first argument that carries one.
pub open spec fn token_in_arguments(arguments: Seq<Seq<char>>) -> Option<Seq<char>>
    decreases arguments.len(),
{
    if arguments.len() == 0 {
        None
    } else if carries_token(arguments[0]) {
        Some(arguments[0].skip(argument_prefix().len() as int))
    } else {
        token_in_arguments(arguments.skip(1))
    }
}

/// The value of the first variable named `CHANNEL_NAME`.
pub open spec fn token_in_environment(variables: Seq<(Seq<char>, Seq<char>)>) -> Option<
    Seq<char>,
>
    decreases variables.len(),
{
    if variables.len() == 0 {
        None
    } else if variables[0].0 == variable_name() {
        Some(variables[0].1)
    } else {
        token_in_environment(variables.skip(1))
    }
}

/// The token that a child started with these parameters finds.
pub open spec fn resolved_token(
    transport: TokenTransport,
    arguments: Seq<Seq<char>>,
    variables: Seq<(Seq<char>, Seq<char>)>,
) -> Option<Seq<char>> {
    match transport {
        TokenTransport::Argument => token_in_arguments(arguments),
        TokenTransport::Environment => token_in_environment(variables),
    }
}

/// The arguments by which the parent passes `token`.
pub open spec fn launch_arguments(transport: TokenTransport, token: Seq<char>) -> Seq<Seq<char>> {
    match transport {
        TokenTransport::Argument => seq![token_argument(token)],
        TokenTransport::Environment => Seq::empty(),
    }
}

/// The variables by which the parent passes `token`.
pub open spec fn launch_variables(transport: TokenTransport, token: Seq<char>) -> Seq<
    (Seq<char>, Seq<char>),
> {
    match transport {
        TokenTransport::Argument => Seq::empty(),
        TokenTransport::Environment => seq![(variable_name(), token)],
    }
}

/// Scans the arguments for the first one of the form `channel_name:<token>`
/// and gives its token.
pub fn channel_name_from_args(arguments: &Vec<String>) -> (token: Option<String>)
    ensures
        token.deep_view() == token_in_arguments(arguments.deep_view()),
{
    proof {
        reveal_strlit("channel_name:");
        assert("channel_name:"@ =~= argument_prefix());
    }
    let ghost all = arguments.deep_view();
    assert(all.skip(0) =~= all);
    let mut i: usize = 0;
    while i < arguments.len()
        invariant
            i <= arguments.len(),
            all == arguments.deep_view(),
            "channel_name:"@ == argument_prefix(),
            token_in_arguments(all) == token_in_arguments(all.skip(i as int)),
        decreases arguments.len() - i,
    {
        let ghost rest = all.skip(i as int);
        assert(rest[0] == arguments[i as int]@);
        assert(rest.skip(1) =~= all.skip(i + 1));
        match strip_prefix(arguments[i].as_str(), "channel_name:") {
            Some(token) => {
                return Some(token);
            },
            None => {},
        }
        i += 1;
    }
    assert(all.skip(i as int).len() == 0);
    None
}

/// Looks the variable `CHANNEL_NAME` up in an environment given as names and
/// values.
pub fn get_channel_name_from_env(variables: &Vec<(String, String)>) -> (token: Option<String>)
    ensures
        token.deep_view() == token_in_environment(variables.deep_view()),
{
    proof {
        reveal_strlit("CHANNEL_NAME");
        assert("CHANNEL_NAME"@ =~= variable_name());
    }
    let ghost all = variables.deep_view();
    assert(all.skip(0) =~= all);
    let mut i: usize = 0;
    while i < variables.len()
        invariant
            i <= variables.len(),
            all == variables.deep_view(),
            "CHANNEL_NAME"@ == variable_name(),
            token_in_environment(all) == token_in_environment(all.skip(i as int)),
        decreases variables.len() - i,
    {
        let ghost rest = all.skip(i as int);
        assert(rest[0] == (variables[i as int].0@, variables[i as int].1@));
        assert(rest.skip(1) =~= all.skip(i + 1));
        if same_text(variables[i].0.as_str(), "CHANNEL_NAME") {
            return Some(variables[i].1.clone());
        }
        i += 1;
    }
    assert(all.skip(i as int).len() == 0);
    None
}

/// Finds the token in the child's startup parameters, by the transport in use.
pub fn resolve_channel_name(
    transport: TokenTransport,
    arguments: &Vec<String>,
    variables: &Vec<(String, String)>,
) -> (token: Option<String>)
    ensures
        token.deep_view() == resolved_token(
            transport,
            arguments.deep_view(),
            variables.deep_view(),
        ),
{
    match transport {
        TokenTransport::Argument => channel_name_from_args(arguments),
        TokenTransport::Environment => get_channel_name_from_env(variables),
    }
}

/// Lays out what the parent adds to the child's command line and environment
/// so that the child finds `token`.
pub fn plan_launch(config: SessionConfig, token: &str) -> (plan: LaunchPlan)
    ensures
        plan.arguments.deep_view() == launch_arguments(config.token_transport, token@),
        plan.variables.deep_view() == launch_variables(config.token_transport, token@),
        plan.capture_output == (config.child_output == ChildOutput::Capture),
{
    let mut arguments: Vec<String> = Vec::new();
    let mut variables: Vec<(String, String)> = Vec::new();
    match config.token_transport {
        TokenTransport::Argument => {
            proof {
                reveal_strlit("channel_name:");
                assert("channel_name:"@ =~= argument_prefix());
            }
            arguments.push(String::from_str("channel_name:").concat(token));
        },
        TokenTransport::Environment => {
            proof {
                reveal_strlit("CHANNEL_NAME");
                assert("CHANNEL_NAME"@ =~= variable_name());
            }
            variables.push((String::from_str("CHANNEL_NAME"), token.to_owned()));
        },
    }
    let capture_output = match config.child_output {
        ChildOutput::Inherit => false,
        ChildOutput::Capture => true,
    };
    assert(arguments.deep_view() =~= launch_arguments(config.token_transport, token@));
    assert(variables.deep_view() =~= launch_variables(config.token_transport, token@));
    LaunchPlan { arguments, variables, capture_output }
}

/// No argument carries a token exactly when the scan finds none.
pub proof fn lemma_no_token_in_arguments(arguments: Seq<Seq<char>>)
    ensures
        token_in_arguments(arguments) is None <==> forall|i: int|
            0 <= i < arguments.len() ==> !carries_token(#[trigger] arguments[i]),
    decreases arguments.len(),
{
    if arguments.len() > 0 {
        let rest = arguments.skip(1);
        lemma_no_token_in_arguments(rest);
        if !carries_token(arguments[0]) && token_in_arguments(rest) is None {
            assert forall|i: int| 0 <= i < arguments.len() implies !carries_token(
                #[trigger] arguments[i],
            ) by {
                if i > 0 {
                    assert(arguments[i] == rest[i - 1]);
                }
            }
        }
        if token_in_arguments(rest) is Some {
            let i = choose|i: int| 0 <= i < rest.len() && carries_token(#[trigger] rest[i]);
            assert(arguments[i + 1] == rest[i]);
        }
    }
}

/// The scan gives the token of the first argument that carries one: the
/// arguments in front of it carry none.
pub proof fn lemma_first_token_in_arguments(arguments: Seq<Seq<char>>, at: int)
    requires
        0 <= at < arguments.len(),
        carries_token(arguments[at]),
        forall|i: int| 0 <= i < at ==> !carries_token(#[trigger] arguments[i]),
    ensures
        token_in_arguments(arguments) == Some(arguments[at].skip(argument_prefix().len() as int)),
    decreases at,
{
    if at > 0 {
        let rest = arguments.skip(1);
        assert(rest[at - 1] == arguments[at]);
        assert forall|i: int| 0 <= i < at - 1 implies !carries_token(#[trigger] rest[i]) by {
            assert(rest[i] == arguments[i + 1]);
        }
        lemma_first_token_in_arguments(rest, at - 1);
    }
}

/// The lookup gives the value of the first variable of the name: the
/// variables in front of it have other names.
pub proof fn lemma_first_token_in_environment(variables: Seq<(Seq<char>, Seq<char>)>, at: int)
    requires
        0 <= at < variables.len(),
        variables[at].0 == variable_name(),
        forall|i: int| 0 <= i < at ==> (#[trigger] variables[i]).0 != variable_name(),
    ensures
        token_in_environment(variables) == Some(variables[at].1),
    decreases at,
{
    if at > 0 {
        let rest = variables.skip(1);
        assert(rest[at - 1] == variables[at]);
        assert forall|i: int| 0 <= i < at - 1 implies (#[trigger] rest[i]).0
            != variable_name() by {
            assert(rest[i] == variables[i + 1]);
        }
        lemma_first_token_in_environment(rest, at - 1);
    }
}

/// No variable has the name exactly when the lookup finds nothing.
pub proof fn lemma_no_token_in_environment(variables: Seq<(Seq<char>, Seq<char>)>)
    ensures
        token_in_environment(variables) is None <==> forall|i: int|
            0 <= i < variables.len() ==> (#[trigger] variables[i]).0 != variable_name(),
    decreases variables.len(),
{
    if variables.len() > 0 {
        let rest = variables.skip(1);
        lemma_no_token_in_environment(rest);
        if variables[0].0 != variable_name() && token_in_environment(rest) is None {
            assert forall|i: int| 0 <= i < variables.len() implies (#[trigger] variables[i]).0
                != variable_name() by {
                if i > 0 {
                    assert(variables[i] == rest[i - 1]);
                }
            }
        }
        if token_in_environment(rest) is Some {
            let i = choose|i: int|
                0 <= i < rest.len() && (#[trigger] rest[i]).0 == variable_name();
            assert(variables[i + 1] == rest[i]);
        }
    }
}

/// A token that the parent passes is the token that the child finds, by
/// either transport and whatever the token holds.
pub proof fn lemma_child_finds_the_token(transport: TokenTransport, token: Seq<char>)
    ensures
        resolved_token(
            transport,
            launch_arguments(transport, token),
            launch_variables(transport, token),
        ) == Some(token),
{
    match transport {
        TokenTransport::Argument => {
            let argument = token_argument(token);
            assert(argument.subrange(0, argument_prefix().len() as int) =~= argument_prefix());
            assert(argument.skip(argument_prefix().len() as int) =~= token);
            lemma_first_token_in_arguments(launch_arguments(transport, token), 0);
        },
        TokenTransport::Environment => {
            lemma_first_token_in_environment(launch_variables(transport, token), 0);
        },
    }
}

/// The child still finds the token when the parent's additions come behind
/// parameters that hold none, such as the program's name.
pub proof fn lemma_child_finds_the_token_behind_others(
    transport: TokenTransport,
    token: Seq<char>,
    arguments: Seq<Seq<char>>,
    variables: Seq<(Seq<char>, Seq<char>)>,
)
    requires
        forall|i: int| 0 <= i < arguments.len() ==> !carries_token(#[trigger] arguments[i]),
        forall|i: int| 0 <= i < variables.len() ==> (#[trigger] variables[i]).0 != variable_name(),
    ensures
        resolved_token(
            transport,
            arguments + launch_arguments(transport, token),
            variables + launch_variables(transport, token),
        ) == Some(token),
{
    match transport {
        TokenTransport::Argument => {
            let argument = token_argument(token);
            assert(argument.subrange(0, argument_prefix().len() as int) =~= argument_prefix());
            assert(argument.skip(argument_prefix().len() as int) =~= token);
            let all = arguments + launch_arguments(transport, token);
            assert(all[arguments.len() as int] == argument);
            lemma_first_token_in_arguments(all, arguments.len() as int);
        },
        TokenTransport::Environment => {
            let all = variables + launch_variables(transport, token);
            assert(all[variables.len() as int] == (variable_name(), token));
            lemma_first_token_in_environment(all, variables.len() as int);
        },
    }
}

} // verus!
