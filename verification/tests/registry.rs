//! What is registered with an executor.
use scaffold::executor::ToolExecutor;
use scaffold::ir::{
    AgentIR, PipelineIR, PromptIR, StringOrFileIR, ToolIR, TypeDefIR, TypeIR,
};
use scaffold::session::{Request, Session, Stop};

fn s(text: &str) -> String {
    text.to_string()
}

fn tool(name: &str, output: TypeIR) -> ToolIR {
    ToolIR { name: s(name), input: TypeIR::Any, output, conditions: None, implementation: None }
}

#[test]
fn the_last_of_a_name_is_found() {
    let tools = vec![tool("a", TypeIR::Int), tool("b", TypeIR::Int), tool("a", TypeIR::Bool)];
    let later = vec![tool("b", TypeIR::String)];
    let mut executor = ToolExecutor::new();
    assert!(executor.get_tool("a").is_none());
    executor.register_tools(&tools);
    assert!(matches!(executor.get_tool("a").unwrap().output, TypeIR::Bool));
    assert!(matches!(executor.get_tool("b").unwrap().output, TypeIR::Int));
    executor.register_tools(&later);
    assert!(matches!(executor.get_tool("a").unwrap().output, TypeIR::Bool));
    assert!(matches!(executor.get_tool("b").unwrap().output, TypeIR::String));
    assert!(executor.get_tool("c").is_none());
}

#[test]
fn kinds_do_not_mix() {
    let literal = || StringOrFileIR::Literal { value: s("text") };
    let prompts = vec![PromptIR {
        name: s("p"),
        input: TypeIR::Any,
        output: TypeIR::Any,
        system: None,
        template: literal(),
    }];
    let agents = vec![AgentIR {
        name: s("g"),
        output: TypeIR::Any,
        system: literal(),
        tools: vec![],
        max_turns: None,
    }];
    let pipelines = vec![PipelineIR { name: s("l"), output: TypeIR::Any, steps: vec![] }];
    let mut executor = ToolExecutor::default();
    executor.register_prompts(&prompts);
    executor.register_agents(&agents);
    executor.register_pipelines(&pipelines);
    assert_eq!(executor.get_prompt("p").unwrap().name, "p");
    assert_eq!(executor.get_agent("g").unwrap().name, "g");
    assert_eq!(executor.get_pipeline("l").unwrap().name, "l");
    assert!(executor.get_tool("p").is_none());
    assert!(executor.get_prompt("g").is_none());
    assert!(executor.get_agent("l").is_none());
    assert!(executor.get_pipeline("p").is_none());
}

#[test]
fn named_types_are_resolved_one_level_deep() {
    let types = vec![
        TypeDefIR { name: s("Id"), definition: TypeIR::Int },
        TypeDefIR { name: s("Alias"), definition: TypeIR::Named { name: s("Id") } },
    ];
    let mut executor = ToolExecutor::new();
    executor.register_types(&types);
    let id = TypeIR::Named { name: s("Id") };
    let alias = TypeIR::Named { name: s("Alias") };
    let unknown = TypeIR::Named { name: s("Unknown") };
    assert!(matches!(executor.resolve_type(&id), TypeIR::Int));
    assert!(matches!(executor.resolve_type(&alias), TypeIR::Named { name } if name == "Id"));
    assert!(matches!(executor.resolve_type(&unknown), TypeIR::Named { name } if name == "Unknown"));
    assert!(matches!(executor.resolve_type(&TypeIR::Bool), TypeIR::Bool));
}

#[test]
fn the_foreign_registry_is_kept() {
    let mut executor = ToolExecutor::new().with_foreign_registry(vec![1]);
    assert_eq!(executor.foreign_registry(), &vec![1]);
    executor.foreign_registry_mut().push(2);
    let executor = executor.with_base_path(s("/base"));
    assert_eq!(executor.foreign_registry(), &vec![1, 2]);
}

#[test]
fn files_are_read_from_the_base_path() {
    let executor = ToolExecutor::new().with_base_path(s("/base"));
    let file = StringOrFileIR::File { path: s("a.txt") };
    let asked = executor
        .resolve_string_or_file(&file, &mut Session::new(Vec::new().into()))
        .unwrap_err();
    assert!(
        matches!(asked, Stop::Ask(Request::ReadFile { base: Some(b), path }) if b == "/base" && path == "a.txt")
    );
    let asked = ToolExecutor::new()
        .resolve_string_or_file(&file, &mut Session::new(Vec::new().into()))
        .unwrap_err();
    assert!(matches!(asked, Stop::Ask(Request::ReadFile { base: None, .. })));
}
