//! The instance class hierarchy as scripts query it: each concrete class has
//! a name and a fixed set of ancestors, and `is_a` answers membership by
//! name. Lookups never panic; an unknown name is simply not an ancestor.

use vstd::prelude::*;

verus! {

/// The concrete classes the runtime instantiates.
#[derive(Clone, Copy, PartialEq, Eq, Structural, Debug)]
pub enum ClassTag {
    DataModel,
    LogService,
    RunService,
    Workspace,
    Script,
    LocalScript,
    ModuleScript,
}

/// The name of a concrete class.
pub open spec fn spec_class_name(tag: ClassTag) -> Seq<char> {
    match tag {
        ClassTag::DataModel => "DataModel"@,
        ClassTag::LogService => "LogService"@,
        ClassTag::RunService => "RunService"@,
        ClassTag::Workspace => "Workspace"@,
        ClassTag::Script => "Script"@,
        ClassTag::LocalScript => "LocalScript"@,
        ClassTag::ModuleScript => "ModuleScript"@,
    }
}

/// Whether a class counts as the named class: itself or any ancestor.
pub open spec fn spec_is_a(tag: ClassTag, name: Seq<char>) -> bool {
    match tag {
        ClassTag::DataModel => name == "DataModel"@ || name == "ServiceProvider"@ || name
            == "Instance"@ || name == "Object"@,
        ClassTag::LogService => name == "Object"@ || name == "Instance"@ || name == "LogService"@,
        ClassTag::RunService => name == "Object"@ || name == "Instance"@ || name == "RunService"@,
        ClassTag::Workspace => name == "Workspace"@ || name == "Model"@ || name == "PVInstance"@
            || name == "Instance"@ || name == "Object"@,
        ClassTag::Script => name == "Object"@ || name == "Instance"@ || name
            == "LuaSourceContainer"@ || name == "BaseScript"@ || name == "Script"@,
        ClassTag::LocalScript => name == "Object"@ || name == "Instance"@ || name
            == "LuaSourceContainer"@ || name == "BaseScript"@ || name == "Script"@ || name
            == "LocalScript"@,
        ClassTag::ModuleScript => name == "Object"@ || name == "Instance"@ || name
            == "LuaSourceContainer"@ || name == "ModuleScript"@,
    }
}

/// Whether two strings hold the same characters.
fn str_eq(a: &str, b: &str) -> (r: bool)
    ensures
        r == (a@ == b@),
{
    let n = a.unicode_len();
    let m = b.unicode_len();
    if n != m {
        return false;
    }
    let mut i: usize = 0;
    while i < n
        invariant
            0 <= i <= n,
            n == a@.len(),
            n == b@.len(),
            forall|j: int| 0 <= j < i ==> a@[j] == b@[j],
        decreases n - i,
    {
        if a.get_char(i) != b.get_char(i) {
            proof {
                if a@ == b@ {
                    assert(a@[i as int] == b@[i as int]);
                }
            }
            return false;
        }
        i = i + 1;
    }
    proof {
        assert(a@ =~= b@);
    }
    true
}

impl ClassTag {
    /// The class's own name.
    pub fn get_class_name(&self) -> (r: &'static str)
        ensures
            r@ == spec_class_name(*self),
    {
        match self {
            ClassTag::DataModel => "DataModel",
            ClassTag::LogService => "LogService",
            ClassTag::RunService => "RunService",
            ClassTag::Workspace => "Workspace",
            ClassTag::Script => "Script",
            ClassTag::LocalScript => "LocalScript",
            ClassTag::ModuleScript => "ModuleScript",
        }
    }

    /// Whether this class counts as the named class.
    pub fn is_a(&self, class_name: &str) -> (r: bool)
        ensures
            r == spec_is_a(*self, class_name@),
    {
        match self {
            ClassTag::DataModel => str_eq(class_name, "DataModel") || str_eq(
                class_name,
                "ServiceProvider",
            ) || str_eq(class_name, "Instance") || str_eq(class_name, "Object"),
            ClassTag::LogService => str_eq(class_name, "Object") || str_eq(class_name, "Instance")
                || str_eq(class_name, "LogService"),
            ClassTag::RunService => str_eq(class_name, "Object") || str_eq(class_name, "Instance")
                || str_eq(class_name, "RunService"),
            ClassTag::Workspace => str_eq(class_name, "Workspace") || str_eq(class_name, "Model")
                || str_eq(class_name, "PVInstance") || str_eq(class_name, "Instance") || str_eq(
                class_name,
                "Object",
            ),
            ClassTag::Script => str_eq(class_name, "Object") || str_eq(class_name, "Instance")
                || str_eq(class_name, "LuaSourceContainer") || str_eq(class_name, "BaseScript")
                || str_eq(class_name, "Script"),
            ClassTag::LocalScript => str_eq(class_name, "Object") || str_eq(class_name, "Instance")
                || str_eq(class_name, "LuaSourceContainer") || str_eq(class_name, "BaseScript")
                || str_eq(class_name, "Script") || str_eq(class_name, "LocalScript"),
            ClassTag::ModuleScript => str_eq(class_name, "Object") || str_eq(class_name, "Instance")
                || str_eq(class_name, "LuaSourceContainer") || str_eq(class_name, "ModuleScript"),
        }
    }

    /// Every class is its own class: `is_a` with the class's own name always
    /// holds.
    pub proof fn lemma_is_a_own_name(tag: ClassTag)
        ensures
            spec_is_a(tag, spec_class_name(tag)),
    {
    }
}

} // verus!
