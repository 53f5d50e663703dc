//! The executor, and what is registered with it.
use vstd::prelude::*;
use crate::dict::Dict;
use crate::ir::{AgentIR, PipelineIR, PromptIR, ToolIR, TypeDefIR};

verus! {

/// What is registered under a name, once a list was registered: the last item of that name.
pub open spec fn registered<T>(
    before: Map<Seq<char>, &T>,
    items: Seq<T>,
    name: spec_fn(T) -> Seq<char>,
) -> Map<Seq<char>, &T>
    decreases items.len(),
{
    if items.len() == 0 {
        before
    } else {
        registered(before, items.drop_last(), name).insert(name(items.last()), &items.last())
    }
}

/// What is registered with an executor.
pub struct Defs<'p> {
    pub tools: Map<Seq<char>, &'p ToolIR>,
    pub prompts: Map<Seq<char>, &'p PromptIR>,
    pub agents: Map<Seq<char>, &'p AgentIR>,
    pub pipelines: Map<Seq<char>, &'p PipelineIR>,
    pub types: Map<Seq<char>, &'p TypeDefIR>,
    /// Where relative paths are taken from.
    pub base_path: Option<Seq<char>>,
}

/// Runs the tools, prompts, agents and pipelines of a program, which it refers to. The foreign
/// registry is the host's: a run asks the host to call a foreign function.
pub struct ToolExecutor<'p, R> {
    tools: Dict<&'p ToolIR>,
    prompts_ir: Dict<&'p PromptIR>,
    agents: Dict<&'p AgentIR>,
    pipelines: Dict<&'p PipelineIR>,
    types: Dict<&'p TypeDefIR>,
    base_path: Option<String>,
    foreign_registry: R,
}

impl<'p, R> View for ToolExecutor<'p, R> {
    type V = Defs<'p>;

    closed spec fn view(&self) -> Defs<'p> {
        Defs {
            tools: self.tools@,
            prompts: self.prompts_ir@,
            agents: self.agents@,
            pipelines: self.pipelines@,
            types: self.types@,
            base_path: match self.base_path {
                Some(p) => Some(p@),
                None => None,
            },
        }
    }
}

/// Nothing registered.
pub open spec fn no_defs<'p>() -> Defs<'p> {
    Defs {
        tools: Map::empty(),
        prompts: Map::empty(),
        agents: Map::empty(),
        pipelines: Map::empty(),
        types: Map::empty(),
        base_path: None,
    }
}

impl<'p> ToolExecutor<'p, ()> {
    /// An executor with nothing registered.
    pub fn new() -> (r: Self)
        ensures
            r@ == no_defs::<'p>(),
    {
        ToolExecutor {
            tools: Dict::new(),
            prompts_ir: Dict::new(),
            agents: Dict::new(),
            pipelines: Dict::new(),
            types: Dict::new(),
            base_path: None,
            foreign_registry: (),
        }
    }
}

impl<'p> Default for ToolExecutor<'p, ()> {
    fn default() -> (r: Self)
        ensures
            r@ == no_defs::<'p>(),
    {
        ToolExecutor::new()
    }
}

/// What was found under a name.
pub open spec fn found<T>(r: Option<&T>, m: Map<Seq<char>, &T>, name: Seq<char>) -> bool {
    match r {
        Some(t) => m.dom().contains(name) && t == m[name],
        None => !m.dom().contains(name),
    }
}

impl<'p, R> ToolExecutor<'p, R> {
    /// The foreign registry.
    pub closed spec fn registry(&self) -> R {
        self.foreign_registry
    }

    /// The executor with a base for relative paths.
    pub fn with_base_path(self, path: String) -> (r: Self)
        ensures
            r@ == (Defs { base_path: Some(path@), ..self@ }),
            r.registry() == self.registry(),
    {
        let mut r = self;
        r.base_path = Some(path);
        r
    }

    /// The executor with another foreign registry.
    pub fn with_foreign_registry<S>(self, registry: S) -> (r: ToolExecutor<'p, S>)
        ensures
            r@ == self@,
            r.registry() == registry,
    {
        ToolExecutor {
            tools: self.tools,
            prompts_ir: self.prompts_ir,
            agents: self.agents,
            pipelines: self.pipelines,
            types: self.types,
            base_path: self.base_path,
            foreign_registry: registry,
        }
    }

    /// The foreign registry, to be changed.
    pub fn foreign_registry_mut(&mut self) -> (r: &mut R)
        ensures
            *r == old(self).registry(),
            final(self).registry() == *final(r),
            final(self)@ == old(self)@,
    {
        &mut self.foreign_registry
    }

    /// The foreign registry.
    pub fn foreign_registry(&self) -> (r: &R)
        ensures
            *r == self.registry(),
    {
        &self.foreign_registry
    }

    /// Registers tools.
    pub fn register_tools(&mut self, tools: &'p [ToolIR])
        ensures
            final(self)@ == (Defs {
                tools: registered(old(self)@.tools, tools@, |t: ToolIR| t.name@),
                ..old(self)@
            }),
            final(self).registry() == old(self).registry(),
    {
        let mut i: usize = 0;
        assert(tools@.take(0) =~= Seq::<ToolIR>::empty());
        while i < tools.len()
            invariant
                i <= tools@.len(),
                self@ == (Defs {
                    tools: registered(old(self)@.tools, tools@.take(i as int), |t: ToolIR| t.name@),
                    ..old(self)@
                }),
                self.registry() == old(self).registry(),
            decreases tools@.len() - i,
        {
            self.tools.insert(tools[i].name.clone(), &tools[i]);
            assert(tools@.take(i + 1).drop_last() =~= tools@.take(i as int));
            i = i + 1;
        }
        assert(tools@.take(tools@.len() as int) =~= tools@);
    }

    /// Registers prompts.
    pub fn register_prompts(&mut self, prompts: &'p [PromptIR])
        ensures
            final(self)@ == (Defs {
                prompts: registered(old(self)@.prompts, prompts@, |p: PromptIR| p.name@),
                ..old(self)@
            }),
            final(self).registry() == old(self).registry(),
    {
        let mut i: usize = 0;
        assert(prompts@.take(0) =~= Seq::<PromptIR>::empty());
        while i < prompts.len()
            invariant
                i <= prompts@.len(),
                self@ == (Defs {
                    prompts: registered(
                        old(self)@.prompts,
                        prompts@.take(i as int),
                        |p: PromptIR| p.name@,
                    ),
                    ..old(self)@
                }),
                self.registry() == old(self).registry(),
            decreases prompts@.len() - i,
        {
            self.prompts_ir.insert(prompts[i].name.clone(), &prompts[i]);
            assert(prompts@.take(i + 1).drop_last() =~= prompts@.take(i as int));
            i = i + 1;
        }
        assert(prompts@.take(prompts@.len() as int) =~= prompts@);
    }

    /// Registers agents.
    pub fn register_agents(&mut self, agents: &'p [AgentIR])
        ensures
            final(self)@ == (Defs {
                agents: registered(old(self)@.agents, agents@, |a: AgentIR| a.name@),
                ..old(self)@
            }),
            final(self).registry() == old(self).registry(),
    {
        let mut i: usize = 0;
        assert(agents@.take(0) =~= Seq::<AgentIR>::empty());
        while i < agents.len()
            invariant
                i <= agents@.len(),
                self@ == (Defs {
                    agents: registered(
                        old(self)@.agents,
                        agents@.take(i as int),
                        |a: AgentIR| a.name@,
                    ),
                    ..old(self)@
                }),
                self.registry() == old(self).registry(),
            decreases agents@.len() - i,
        {
            self.agents.insert(agents[i].name.clone(), &agents[i]);
            assert(agents@.take(i + 1).drop_last() =~= agents@.take(i as int));
            i = i + 1;
        }
        assert(agents@.take(agents@.len() as int) =~= agents@);
    }

    /// Registers pipelines.
    pub fn register_pipelines(&mut self, pipelines: &'p [PipelineIR])
        ensures
            final(self)@ == (Defs {
                pipelines: registered(old(self)@.pipelines, pipelines@, |p: PipelineIR| p.name@),
                ..old(self)@
            }),
            final(self).registry() == old(self).registry(),
    {
        let mut i: usize = 0;
        assert(pipelines@.take(0) =~= Seq::<PipelineIR>::empty());
        while i < pipelines.len()
            invariant
                i <= pipelines@.len(),
                self@ == (Defs {
                    pipelines: registered(
                        old(self)@.pipelines,
                        pipelines@.take(i as int),
                        |p: PipelineIR| p.name@,
                    ),
                    ..old(self)@
                }),
                self.registry() == old(self).registry(),
            decreases pipelines@.len() - i,
        {
            self.pipelines.insert(pipelines[i].name.clone(), &pipelines[i]);
            assert(pipelines@.take(i + 1).drop_last() =~= pipelines@.take(i as int));
            i = i + 1;
        }
        assert(pipelines@.take(pipelines@.len() as int) =~= pipelines@);
    }

    /// Registers type definitions.
    pub fn register_types(&mut self, types: &'p [TypeDefIR])
        ensures
            final(self)@ == (Defs {
                types: registered(old(self)@.types, types@, |t: TypeDefIR| t.name@),
                ..old(self)@
            }),
            final(self).registry() == old(self).registry(),
    {
        let mut i: usize = 0;
        assert(types@.take(0) =~= Seq::<TypeDefIR>::empty());
        while i < types.len()
            invariant
                i <= types@.len(),
                self@ == (Defs {
                    types: registered(
                        old(self)@.types,
                        types@.take(i as int),
                        |t: TypeDefIR| t.name@,
                    ),
                    ..old(self)@
                }),
                self.registry() == old(self).registry(),
            decreases types@.len() - i,
        {
            self.types.insert(types[i].name.clone(), &types[i]);
            assert(types@.take(i + 1).drop_last() =~= types@.take(i as int));
            i = i + 1;
        }
        assert(types@.take(types@.len() as int) =~= types@);
    }

    /// A registered tool.
    pub fn get_tool(&self, name: &str) -> (r: Option<&'p ToolIR>)
        ensures
            found(r, self@.tools, name@),
    {
        match self.tools.get(&name.to_string()) {
            Some(t) => Some(*t),
            None => None,
        }
    }

    /// A registered prompt.
    pub fn get_prompt(&self, name: &str) -> (r: Option<&'p PromptIR>)
        ensures
            found(r, self@.prompts, name@),
    {
        match self.prompts_ir.get(&name.to_string()) {
            Some(t) => Some(*t),
            None => None,
        }
    }

    /// A registered agent.
    pub fn get_agent(&self, name: &str) -> (r: Option<&'p AgentIR>)
        ensures
            found(r, self@.agents, name@),
    {
        match self.agents.get(&name.to_string()) {
            Some(t) => Some(*t),
            None => None,
        }
    }

    /// A registered pipeline.
    pub fn get_pipeline(&self, name: &str) -> (r: Option<&'p PipelineIR>)
        ensures
            found(r, self@.pipelines, name@),
    {
        match self.pipelines.get(&name.to_string()) {
            Some(t) => Some(*t),
            None => None,
        }
    }

    /// The registered type definitions.
    pub fn type_definitions(&self) -> (r: &Dict<&'p TypeDefIR>)
        ensures
            r@ == self@.types,
    {
        &self.types
    }

    /// Where relative paths are taken from.
    pub fn base(&self) -> (r: Option<String>)
        ensures
            match r {
                Some(p) => self@.base_path == Some(p@),
                None => self@.base_path is None,
            },
    {
        match &self.base_path {
            Some(p) => Some(p.clone()),
            None => None,
        }
    }
}

/// What is registered under the name of an item of a list is that item, where no later one has
/// the same name; and under any other name it is what was registered before.
pub proof fn registered_is_found<T>(
    before: Map<Seq<char>, &T>,
    items: Seq<T>,
    name: spec_fn(T) -> Seq<char>,
    i: int,
    other: Seq<char>,
)
    requires
        0 <= i < items.len(),
        forall|j: int| i < j < items.len() ==> name(#[trigger] items[j]) != name(items[i]),
        forall|j: int| 0 <= j < items.len() ==> name(#[trigger] items[j]) != other,
    ensures
        registered(before, items, name).dom().contains(name(items[i])),
        registered(before, items, name)[name(items[i])] == &items[i],
        registered(before, items, name).dom().contains(other) == before.dom().contains(other),
        registered(before, items, name)[other] == before[other],
    decreases items.len(),
{
    let shorter = items.drop_last();
    lemma_not_registered(before, shorter, name, other);
    if i < items.len() - 1 {
        assert(name(items[items.len() - 1]) != name(items[i]));
        assert forall|j: int| 0 <= j < shorter.len() implies name(#[trigger] shorter[j])
            != other by {
            assert(shorter[j] == items[j]);
        }
        assert forall|j: int| i < j < shorter.len() implies name(#[trigger] shorter[j]) != name(
            shorter[i],
        ) by {
            assert(shorter[j] == items[j]);
        }
        registered_is_found(before, shorter, name, i, other);
    }
    assert(name(items[items.len() - 1]) != other);
}

proof fn lemma_not_registered<T>(
    before: Map<Seq<char>, &T>,
    items: Seq<T>,
    name: spec_fn(T) -> Seq<char>,
    other: Seq<char>,
)
    ensures
        (forall|j: int| 0 <= j < items.len() ==> name(#[trigger] items[j]) != other) ==> registered(
            before,
            items,
            name,
        ).dom().contains(other) == before.dom().contains(other) && registered(before, items, name)[other]
            == before[other],
    decreases items.len(),
{
    if items.len() > 0 {
        lemma_not_registered(before, items.drop_last(), name, other);
        if forall|j: int| 0 <= j < items.len() ==> name(#[trigger] items[j]) != other {
            assert(name(items[items.len() - 1]) != other);
            assert forall|j: int| 0 <= j < items.len() - 1 implies name(
                #[trigger] items.drop_last()[j],
            ) != other by {
                assert(items.drop_last()[j] == items[j]);
            }
        }
    }
}

} // verus!
