//! The demos that show what the user interface can do.

use vstd::prelude::*;

verus! {

/// A demo.
#[derive(Clone, Copy, Debug, PartialEq, Eq, Structural)]
pub enum DemoType {
    Menu,
    AnimationPlayground,
    ShaderShowcase,
    TextEditor,
}

/// What a demo is called.
pub open spec fn name_of(demo: DemoType) -> Seq<char> {
    match demo {
        DemoType::Menu => "Demo Menu"@,
        DemoType::AnimationPlayground => "Animation Playground"@,
        DemoType::ShaderShowcase => "Shader Showcase"@,
        DemoType::TextEditor => "Text Editor"@,
    }
}

/// What a demo shows.
pub open spec fn description_of(demo: DemoType) -> Seq<char> {
    match demo {
        DemoType::Menu => "Select a demo to run"@,
        DemoType::AnimationPlayground => "Bouncing balls with physics simulation"@,
        DemoType::ShaderShowcase => "Gradient and particle effects"@,
        DemoType::TextEditor => "Touch-friendly text editing"@,
    }
}

impl DemoType {
    /// What the demo is called.
    pub fn name(&self) -> (name: &'static str)
        ensures
            name@ == name_of(*self),
    {
        match self {
            DemoType::Menu => "Demo Menu",
            DemoType::AnimationPlayground => "Animation Playground",
            DemoType::ShaderShowcase => "Shader Showcase",
            DemoType::TextEditor => "Text Editor",
        }
    }

    /// What the demo shows.
    pub fn description(&self) -> (description: &'static str)
        ensures
            description@ == description_of(*self),
    {
        match self {
            DemoType::Menu => "Select a demo to run",
            DemoType::AnimationPlayground => "Bouncing balls with physics simulation",
            DemoType::ShaderShowcase => "Gradient and particle effects",
            DemoType::TextEditor => "Touch-friendly text editing",
        }
    }

    /// The demos that the menu offers: all of them but the menu itself.
    pub fn all() -> (demos: Vec<DemoType>)
        ensures
            demos@ == seq![
                DemoType::AnimationPlayground,
                DemoType::ShaderShowcase,
                DemoType::TextEditor,
            ],
            forall|demo: DemoType| demo != DemoType::Menu <==> demos@.contains(demo),
    {
        let demos = vec![
            DemoType::AnimationPlayground,
            DemoType::ShaderShowcase,
            DemoType::TextEditor,
        ];
        proof {
            assert(demos@ =~= seq![
                DemoType::AnimationPlayground,
                DemoType::ShaderShowcase,
                DemoType::TextEditor,
            ]);
            assert(demos@[0] == DemoType::AnimationPlayground);
            assert(demos@[1] == DemoType::ShaderShowcase);
            assert(demos@[2] == DemoType::TextEditor);
        }
        demos
    }
}

/// Demos have names and descriptions of their own.
pub proof fn law_demos_are_told_apart(demo: DemoType, other: DemoType)
    ensures
        name_of(demo) == name_of(other) ==> demo == other,
        description_of(demo) == description_of(other) ==> demo == other,
{
    reveal_strlit("Demo Menu");
    reveal_strlit("Animation Playground");
    reveal_strlit("Shader Showcase");
    reveal_strlit("Text Editor");
    assert("Demo Menu"@[0] == 'D' && "Animation Playground"@[0] == 'A' && "Shader Showcase"@[0]
        == 'S' && "Text Editor"@[0] == 'T');
    reveal_strlit("Select a demo to run");
    reveal_strlit("Bouncing balls with physics simulation");
    reveal_strlit("Gradient and particle effects");
    reveal_strlit("Touch-friendly text editing");
    assert("Select a demo to run"@[0] == 'S' && "Bouncing balls with physics simulation"@[0] == 'B'
        && "Gradient and particle effects"@[0] == 'G' && "Touch-friendly text editing"@[0] == 'T');
}

} // verus!
