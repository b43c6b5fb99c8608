//! The settings of the build.

use super::{joined, texts_of, Xml};
use vstd::prelude::*;

verus! {

/// The setting that the enemy is a boss.
pub const K_ENEMY_IS_BOSS: &'static str = "enemyIsBoss";

/// The boss that the enemy is.
pub const V_ENEMY_SHAPER: &'static str = "Pinnacle";

/// The settings of the build.
#[derive(Debug)]
pub struct Config {
    inputs: Vec<Input>,
}

/// One setting: its name, the kind of its value, and the value.
#[derive(Debug)]
pub struct Input {
    name: String,
    type_str: String,
    value: String,
}

impl Input {
    /// The name of the setting.
    pub closed spec fn name(&self) -> Seq<char> {
        self.name@
    }

    /// The kind of the value.
    pub closed spec fn kind(&self) -> Seq<char> {
        self.type_str@
    }

    /// The value.
    pub closed spec fn value(&self) -> Seq<char> {
        self.value@
    }

    /// A setting with a text as its value.
    pub fn new_string(k: &str, v: &str) -> (input: Input)
        ensures
            input.name() == k@,
            input.kind() == "string"@,
            input.value() == v@,
    {
        Input { name: k.to_owned(), type_str: "string".to_owned(), value: v.to_owned() }
    }
}

impl Xml for Input {
    open spec fn xml(&self) -> Seq<char> {
        "<Input name=\""@ + self.name() + "\" "@ + self.kind() + "=\""@ + self.value() + "\"/>"@
    }

    fn to_string(&self) -> (text: String) {
        let mut s = "<Input name=\"".to_owned();
        s.append(self.name.as_str());
        s.append("\" ");
        s.append(self.type_str.as_str());
        s.append("=\"");
        s.append(self.value.as_str());
        s.append("\"/>");
        s
    }
}

impl Config {
    /// The settings.
    pub closed spec fn inputs(&self) -> Seq<Input> {
        self.inputs@
    }
}

impl Default for Config {
    fn default() -> (r: Self)
        ensures
            r.inputs().len() == 1,
            r.inputs()[0].name() == K_ENEMY_IS_BOSS@,
            r.inputs()[0].kind() == "string"@,
            r.inputs()[0].value() == V_ENEMY_SHAPER@,
    {
        let mut inputs: Vec<Input> = Vec::new();
        inputs.push(Input::new_string(K_ENEMY_IS_BOSS, V_ENEMY_SHAPER));
        Self { inputs }
    }
}

impl Xml for Config {
    open spec fn xml(&self) -> Seq<char> {
        "<Config>\n"@ + joined(
            texts_of(self.inputs()),
            Seq::<char>::empty(),
            self.inputs().len() as int,
        ) + "\n</Config>"@
    }

    fn to_string(&self) -> (text: String) {
        let mut s = "<Config>\n".to_owned();
        let mut i: usize = 0;
        let ghost head = s@;
        assert(head + joined(texts_of(self.inputs()), Seq::<char>::empty(), 0) =~= head);
        while i < self.inputs.len()
            invariant
                i <= self.inputs.len(),
                s@ == head + joined(texts_of(self.inputs()), Seq::<char>::empty(), i as int),
            decreases self.inputs.len() - i,
        {
            let part = self.inputs[i].to_string();
            s.append(part.as_str());
            assert(s@ =~= head + joined(texts_of(self.inputs()), Seq::<char>::empty(), i + 1));
            i += 1;
        }
        s.append("\n</Config>");
        s
    }
}

} // verus!
