use ipc_session::startup::{
    channel_name_from_args, get_channel_name_from_env, plan_launch, resolve_channel_name,
    ChildOutput, LaunchPlan, SessionConfig, TokenTransport,
};

fn texts(items: &[&str]) -> Vec<String> {
    items.iter().map(|item| item.to_string()).collect()
}

fn pairs(items: &[(&str, &str)]) -> Vec<(String, String)> {
    items.iter().map(|(name, value)| (name.to_string(), value.to_string())).collect()
}

#[test]
fn the_token_is_found_among_the_arguments() {
    let arguments = texts(&["child", "--verbose", "channel_name:abc-123", "tail"]);
    assert_eq!(channel_name_from_args(&arguments), Some("abc-123".to_string()));
}

#[test]
fn the_first_argument_with_the_prefix_wins() {
    let arguments = texts(&["channel_name:first", "channel_name:second"]);
    assert_eq!(channel_name_from_args(&arguments), Some("first".to_string()));
}

#[test]
fn an_argument_of_the_prefix_alone_holds_the_empty_token() {
    assert_eq!(channel_name_from_args(&texts(&["channel_name:"])), Some(String::new()));
}

#[test]
fn arguments_without_the_prefix_hold_no_token() {
    assert_eq!(channel_name_from_args(&texts(&[])), None);
    assert_eq!(channel_name_from_args(&texts(&["child", "channel_name", "name:abc"])), None);
    assert_eq!(channel_name_from_args(&texts(&["Channel_name:abc", " channel_name:abc"])), None);
}

#[test]
fn the_token_is_found_in_the_environment() {
    let variables = pairs(&[("PATH", "/bin"), ("CHANNEL_NAME", "abc-123"), ("HOME", "/root")]);
    assert_eq!(get_channel_name_from_env(&variables), Some("abc-123".to_string()));
}

#[test]
fn the_first_variable_of_the_name_wins() {
    let variables = pairs(&[("CHANNEL_NAME", "first"), ("CHANNEL_NAME", "second")]);
    assert_eq!(get_channel_name_from_env(&variables), Some("first".to_string()));
}

#[test]
fn an_environment_without_the_variable_holds_no_token() {
    assert_eq!(get_channel_name_from_env(&pairs(&[])), None);
    let variables = pairs(&[("channel_name", "abc"), ("CHANNEL_NAME_", "abc"), ("abc", "CHANNEL_NAME")]);
    assert_eq!(get_channel_name_from_env(&variables), None);
}

#[test]
fn the_transport_decides_where_the_token_is_sought() {
    let arguments = texts(&["channel_name:from-arguments"]);
    let variables = pairs(&[("CHANNEL_NAME", "from-environment")]);
    assert_eq!(
        resolve_channel_name(TokenTransport::Argument, &arguments, &variables),
        Some("from-arguments".to_string())
    );
    assert_eq!(
        resolve_channel_name(TokenTransport::Environment, &arguments, &variables),
        Some("from-environment".to_string())
    );
    assert_eq!(resolve_channel_name(TokenTransport::Argument, &texts(&[]), &variables), None);
    assert_eq!(resolve_channel_name(TokenTransport::Environment, &arguments, &pairs(&[])), None);
}

#[test]
fn the_plan_passes_the_token_as_an_argument() {
    let config = SessionConfig {
        token_transport: TokenTransport::Argument,
        child_output: ChildOutput::Inherit,
    };
    assert_eq!(
        plan_launch(config, "abc"),
        LaunchPlan {
            arguments: texts(&["channel_name:abc"]),
            variables: pairs(&[]),
            capture_output: false,
        }
    );
}

#[test]
fn the_plan_passes_the_token_as_a_variable() {
    let config = SessionConfig {
        token_transport: TokenTransport::Environment,
        child_output: ChildOutput::Capture,
    };
    assert_eq!(
        plan_launch(config, "abc"),
        LaunchPlan {
            arguments: texts(&[]),
            variables: pairs(&[("CHANNEL_NAME", "abc")]),
            capture_output: true,
        }
    );
}

#[test]
fn what_the_parent_plans_the_child_resolves() {
    for transport in [TokenTransport::Argument, TokenTransport::Environment] {
        for token in ["abc", "", "channel_name:nested", "with space", "ünï"] {
            let config = SessionConfig { token_transport: transport, child_output: ChildOutput::Inherit };
            let plan = plan_launch(config, token);
            let mut arguments = texts(&["/usr/bin/program", "child"]);
            arguments.extend(plan.arguments);
            let mut variables = pairs(&[("PATH", "/bin")]);
            variables.extend(plan.variables);
            assert_eq!(
                resolve_channel_name(transport, &arguments, &variables),
                Some(token.to_string())
            );
        }
    }
}
