//! The script that draws a regular expression.

use vstd::prelude::*;
use vstd::string::*;
use crate::ast::Node;
use crate::diagram::render;
use crate::translate::{descent, translate, Unsupported};

verus! {

/// The script around the expression `expr`: the imports, the diagram that
/// holds the expression, and the call that writes it out as SVG.
pub open spec fn script_text(expr: Seq<char>) -> Seq<char> {
    "import sys\nfrom railroad import *\nComplexDiagram("@ + expr
        + ").writeSvg(sys.stdout.write)\n"@
}

/// The script that draws `root`, or the first thing in `root`, read from
/// left to right, that cannot be drawn.
pub fn script(root: &Node) -> (r: Result<String, Unsupported>)
    ensures
        match translate(*root) {
            Ok(d) => r matches Ok(s) && s@ == script_text(render(d)),
            Err(e) => r matches Err(x) && x == e,
        },
{
    match descent(root) {
        Ok(expr) => {
            let mut s = String::from_str("import sys\nfrom railroad import *\nComplexDiagram(");
            s.append(expr.as_str());
            s.append(").writeSvg(sys.stdout.write)\n");
            Ok(s)
        },
        Err(e) => Err(e),
    }
}

} // verus!
