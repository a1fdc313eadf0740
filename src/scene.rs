use vstd::prelude::*;
use crate::emit::{children_text, write_tree};
use crate::node::{Node, Tree};
use crate::number::{nat_text, write_nat};

verus! {

/// The text of a scene: the detail setting when it is not zero, then each
/// object's statement on its own lines, in the order added.
pub open spec fn scene_text(detail: u32, objects: Seq<Tree>) -> Seq<char> {
    if detail == 0 {
        children_text(objects, Seq::empty())
    } else {
        "$fn="@ + nat_text(detail as nat) + ";\n"@ + children_text(objects, Seq::empty())
    }
}

/// The top-level objects of a script, with the renderer's detail level
/// (`$fn`, the number of facets on round shapes; 0 leaves it unset).
pub struct Scene {
    detail: u32,
    objects: Vec<Node>,
}

impl View for Scene {
    type V = (u32, Seq<Tree>);

    closed spec fn view(&self) -> (u32, Seq<Tree>) {
        (self.detail, self.objects@.map_values(|n: Node| n@))
    }
}

impl Scene {
    pub fn new() -> (r: Scene)
        ensures
            r@ == (0u32, Seq::<Tree>::empty()),
    {
        let r = Scene { detail: 0, objects: Vec::new() };
        assert(r@.1 =~= Seq::<Tree>::empty());
        r
    }

    pub fn set_detail(&mut self, detail: u32)
        ensures
            final(self)@ == (detail, old(self)@.1),
    {
        self.detail = detail;
    }

    /// Appends a top-level object after those already added.
    pub fn add_object(&mut self, object: Node)
        ensures
            final(self)@ == (old(self)@.0, old(self)@.1.push(object@)),
    {
        let ghost before = self@;
        self.objects.push(object);
        assert(self@.1 =~= before.1.push(object@));
    }

    pub fn get_code(&self) -> (s: String)
        ensures
            s@ == scene_text(self@.0, self@.1),
    {
        let mut s = String::new();
        if self.detail != 0 {
            s.append("$fn=");
            write_nat(self.detail as u64, &mut s);
            s.append(";\n");
        }
        let ghost start = s@;
        let ghost objs = self@.1;
        let margin = String::new();
        let mut i: usize = 0;
        assert(objs.take(0) =~= Seq::<Tree>::empty());
        while i < self.objects.len()
            invariant
                i <= self.objects.len(),
                objs == self@.1,
                objs.len() == self.objects.len(),
                margin@ == Seq::<char>::empty(),
                s@ == start + children_text(objs.take(i as int), Seq::empty()),
            decreases self.objects.len() - i,
        {
            let ghost prefix = objs.take(i as int + 1);
            assert(prefix.drop_last() =~= objs.take(i as int));
            assert(prefix.last() == objs[i as int]);
            write_tree(&self.objects[i], &margin, &mut s);
            s.append("\n");
            i = i + 1;
        }
        assert(objs.take(self.objects.len() as int) =~= objs);
        s
    }
}

} // verus!
