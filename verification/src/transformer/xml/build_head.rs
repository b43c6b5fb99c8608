//! The head of the build: level and class.

use super::Xml;
use crate::text::{decimal, push_decimal};
use vstd::prelude::*;

verus! {

/// The level, class and ascendancy of the character.
#[derive(Debug)]
pub struct Build {
    pub level: i32,
    pub class_name: String,
    pub ascend_class_name: String,
}

impl Default for Build {
    fn default() -> (r: Self)
        ensures
            r.level == 0,
            r.class_name@ == "None"@,
            r.ascend_class_name@ == "None"@,
    {
        Self { level: 0, class_name: "None".to_owned(), ascend_class_name: "None".to_owned() }
    }
}

impl Xml for Build {
    open spec fn xml(&self) -> Seq<char> {
        "<Build level=\""@ + decimal(self.level as int) + "\" className=\""@ + self.class_name@
            + "\" ascendClassName=\""@ + self.ascend_class_name@
            + "\" targetVersion=\"3_0\" mainSocketGroup=\"1\" viewMode=\"ITEMS\">\n</Build>"@
    }

    fn to_string(&self) -> (text: String) {
        let mut s = "<Build level=\"".to_owned();
        push_decimal(&mut s, self.level as i64);
        s.append("\" className=\"");
        s.append(self.class_name.as_str());
        s.append("\" ascendClassName=\"");
        s.append(self.ascend_class_name.as_str());
        s.append("\" targetVersion=\"3_0\" mainSocketGroup=\"1\" viewMode=\"ITEMS\">\n</Build>");
        s
    }
}

} // verus!
