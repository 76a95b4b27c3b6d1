//! The serialized objects at the end of a document, numbered from the
//! object-number plan and put in the order in which they are written,
//! and the cross-reference coverage that follows from the plan.
use crate::writer::pdf_writer::{
    flat_images, flat_lists, flat_page_images, flat_pairs, id_range, insert_by_id,
    lemma_sort_by_id_sorted, object_offsets, plan_ids, sort_by_id, ObjectIdPlan,
};
use vstd::prelude::*;

verus! {

/// The numbers and bytes of serialized objects.
pub open spec fn numbered_bytes(objs: Seq<(u32, Vec<u8>)>) -> Seq<(u32, Seq<u8>)> {
    Seq::new(objs.len(), |i: int| (objs[i].0, objs[i].1@))
}

/// The numbers of numbered objects, in order.
pub open spec fn ids_of<B>(objs: Seq<(u32, B)>) -> Seq<u32> {
    Seq::new(objs.len(), |i: int| objs[i].0)
}

/// Each page object and content stream with its number, page by page.
pub open spec fn pair_objects(ids: Seq<(u32, u32)>, bodies: Seq<(Vec<u8>, Vec<u8>)>) -> Seq<
    (u32, Seq<u8>),
>
    decreases ids.len(),
{
    if ids.len() == 0 {
        Seq::empty()
    } else {
        pair_objects(ids.drop_last(), bodies.drop_last()) + seq![
            (ids.last().0, bodies.last().0@),
            (ids.last().1, bodies.last().1@),
        ]
    }
}

/// Each object of a list with its number.
pub open spec fn list_objects(ids: Seq<u32>, bodies: Seq<Vec<u8>>) -> Seq<(u32, Seq<u8>)>
    decreases ids.len(),
{
    if ids.len() == 0 {
        Seq::empty()
    } else {
        list_objects(ids.drop_last(), bodies.drop_last()).push((ids.last(), bodies.last()@))
    }
}

/// The objects of each list with their numbers, list by list.
pub open spec fn lists_objects(ids: Seq<Vec<u32>>, bodies: Seq<Vec<Vec<u8>>>) -> Seq<
    (u32, Seq<u8>),
>
    decreases ids.len(),
{
    if ids.len() == 0 {
        Seq::empty()
    } else {
        lists_objects(ids.drop_last(), bodies.drop_last()) + list_objects(
            ids.last()@,
            bodies.last()@,
        )
    }
}

/// Each image of a page with its number, followed by its soft mask with
/// its number when it has one.
pub open spec fn image_objects_of(
    ids: Seq<(u32, Option<u32>)>,
    bodies: Seq<(Vec<u8>, Option<Vec<u8>>)>,
) -> Seq<(u32, Seq<u8>)>
    decreases ids.len(),
{
    if ids.len() == 0 {
        Seq::empty()
    } else {
        image_objects_of(ids.drop_last(), bodies.drop_last()) + match (
            ids.last().1,
            bodies.last().1,
        ) {
            (Some(m), Some(b)) => seq![(ids.last().0, bodies.last().0@), (m, b@)],
            _ => seq![(ids.last().0, bodies.last().0@)],
        }
    }
}

/// The images of every page with their numbers, page by page.
pub open spec fn page_image_objects(
    ids: Seq<Vec<(u32, Option<u32>)>>,
    bodies: Seq<Vec<(Vec<u8>, Option<Vec<u8>>)>>,
) -> Seq<(u32, Seq<u8>)>
    decreases ids.len(),
{
    if ids.len() == 0 {
        Seq::empty()
    } else {
        page_image_objects(ids.drop_last(), bodies.drop_last()) + image_objects_of(
            ids.last()@,
            bodies.last()@,
        )
    }
}

/// The serialized bodies fit the plan: one pair per page, one body per
/// annotation and form field, an image body per image and a mask body
/// exactly for the images that have a soft mask, and an interactive form
/// body exactly when the plan numbers one.
pub open spec fn bodies_fit(
    p: ObjectIdPlan,
    page_bodies: Seq<(Vec<u8>, Vec<u8>)>,
    image_bodies: Seq<Vec<(Vec<u8>, Option<Vec<u8>>)>>,
    annot_bodies: Seq<Vec<Vec<u8>>>,
    field_bodies: Seq<Vec<Vec<u8>>>,
    acroform: Option<Vec<u8>>,
) -> bool {
    &&& page_bodies.len() == p.page_ids@.len()
    &&& image_bodies.len() == p.image_ids@.len()
    &&& forall|i: int|
        0 <= i < image_bodies.len() ==> #[trigger] image_bodies[i]@.len() == p.image_ids@[i]@.len()
            && forall|j: int|
            0 <= j < image_bodies[i]@.len() ==> (#[trigger] image_bodies[i]@[j].1 is Some) == (
            p.image_ids@[i]@[j].1 is Some)
    &&& annot_bodies.len() == p.annot_ids@.len()
    &&& forall|i: int|
        0 <= i < annot_bodies.len() ==> #[trigger] annot_bodies[i]@.len() == p.annot_ids@[i]@.len()
    &&& field_bodies.len() == p.field_ids@.len()
    &&& forall|i: int|
        0 <= i < field_bodies.len() ==> #[trigger] field_bodies[i]@.len() == p.field_ids@[i]@.len()
    &&& (acroform is Some) == (p.acroform is Some)
}

/// The objects at the end of a document in the order in which they are
/// written: the catalog, the page tree, the fonts (numbered before the
/// plan), each page and its content stream, the images, the annotations,
/// the form fields, the interactive form when there is one, and the
/// information dictionary.
pub open spec fn document_objects_spec(
    p: ObjectIdPlan,
    catalog: Seq<u8>,
    pages: Seq<u8>,
    fonts: Seq<(u32, Vec<u8>)>,
    page_bodies: Seq<(Vec<u8>, Vec<u8>)>,
    image_bodies: Seq<Vec<(Vec<u8>, Option<Vec<u8>>)>>,
    annot_bodies: Seq<Vec<Vec<u8>>>,
    field_bodies: Seq<Vec<Vec<u8>>>,
    acroform: Option<Vec<u8>>,
    info: Seq<u8>,
) -> Seq<(u32, Seq<u8>)> {
    seq![(p.catalog, catalog), (p.pages, pages)] + numbered_bytes(fonts) + pair_objects(
        p.page_ids@,
        page_bodies,
    ) + page_image_objects(p.image_ids@, image_bodies) + lists_objects(p.annot_ids@, annot_bodies)
        + lists_objects(p.field_ids@, field_bodies) + match (p.acroform, acroform) {
        (Some(a), Some(b)) => seq![(a, b@)],
        _ => Seq::empty(),
    } + seq![(p.info, info)]
}

/// The object numbers in the order in which the end of a document writes
/// them (see [`document_objects_spec`]).
pub open spec fn write_order_ids(p: ObjectIdPlan, fonts: Seq<u32>) -> Seq<u32> {
    seq![p.catalog, p.pages] + fonts + flat_pairs(p.page_ids@) + flat_page_images(p.image_ids@)
        + flat_lists(p.annot_ids@) + flat_lists(p.field_ids@) + match p.acroform {
        Some(a) => seq![a],
        None => Seq::empty(),
    } + seq![p.info]
}

fn copy_bytes(b: &Vec<u8>) -> (r: Vec<u8>)
    ensures
        r@ == b@,
{
    let r = b.clone();
    assert(r@ =~= b@);
    r
}

fn push_object(out: &mut Vec<(u32, Vec<u8>)>, id: u32, body: &Vec<u8>)
    ensures
        numbered_bytes(final(out)@) == numbered_bytes(old(out)@).push((id, body@)),
{
    let b = copy_bytes(body);
    out.push((id, b));
    assert(numbered_bytes(out@) =~= numbered_bytes(old(out)@).push((id, body@)));
}

fn push_pairs(out: &mut Vec<(u32, Vec<u8>)>, ids: &Vec<(u32, u32)>, bodies: &Vec<(Vec<u8>, Vec<u8>)>)
    requires
        ids@.len() == bodies@.len(),
    ensures
        numbered_bytes(final(out)@) == numbered_bytes(old(out)@) + pair_objects(ids@, bodies@),
{
    let ghost start = numbered_bytes(out@);
    let mut i: usize = 0;
    assert(pair_objects(ids@.take(0), bodies@.take(0)) =~= Seq::<(u32, Seq<u8>)>::empty());
    while i < ids.len()
        invariant
            i <= ids@.len(),
            ids@.len() == bodies@.len(),
            numbered_bytes(out@) == start + pair_objects(ids@.take(i as int), bodies@.take(i as int)),
        decreases ids.len() - i,
    {
        assert(ids@.take(i + 1).drop_last() =~= ids@.take(i as int));
        assert(bodies@.take(i + 1).drop_last() =~= bodies@.take(i as int));
        push_object(out, ids[i].0, &bodies[i].0);
        push_object(out, ids[i].1, &bodies[i].1);
        assert(numbered_bytes(out@) =~= start + pair_objects(
            ids@.take(i + 1),
            bodies@.take(i + 1),
        ));
        i = i + 1;
    }
    assert(ids@.take(i as int) =~= ids@);
    assert(bodies@.take(i as int) =~= bodies@);
}

fn push_list(out: &mut Vec<(u32, Vec<u8>)>, ids: &Vec<u32>, bodies: &Vec<Vec<u8>>)
    requires
        ids@.len() == bodies@.len(),
    ensures
        numbered_bytes(final(out)@) == numbered_bytes(old(out)@) + list_objects(ids@, bodies@),
{
    let ghost start = numbered_bytes(out@);
    let mut i: usize = 0;
    assert(list_objects(ids@.take(0), bodies@.take(0)) =~= Seq::<(u32, Seq<u8>)>::empty());
    while i < ids.len()
        invariant
            i <= ids@.len(),
            ids@.len() == bodies@.len(),
            numbered_bytes(out@) == start + list_objects(ids@.take(i as int), bodies@.take(i as int)),
        decreases ids.len() - i,
    {
        assert(ids@.take(i + 1).drop_last() =~= ids@.take(i as int));
        assert(bodies@.take(i + 1).drop_last() =~= bodies@.take(i as int));
        push_object(out, ids[i], &bodies[i]);
        assert(numbered_bytes(out@) =~= start + list_objects(
            ids@.take(i + 1),
            bodies@.take(i + 1),
        ));
        i = i + 1;
    }
    assert(ids@.take(i as int) =~= ids@);
    assert(bodies@.take(i as int) =~= bodies@);
}

fn push_lists(out: &mut Vec<(u32, Vec<u8>)>, ids: &Vec<Vec<u32>>, bodies: &Vec<Vec<Vec<u8>>>)
    requires
        ids@.len() == bodies@.len(),
        forall|i: int| 0 <= i < bodies@.len() ==> #[trigger] bodies@[i]@.len() == ids@[i]@.len(),
    ensures
        numbered_bytes(final(out)@) == numbered_bytes(old(out)@) + lists_objects(ids@, bodies@),
{
    let ghost start = numbered_bytes(out@);
    let mut i: usize = 0;
    assert(lists_objects(ids@.take(0), bodies@.take(0)) =~= Seq::<(u32, Seq<u8>)>::empty());
    while i < ids.len()
        invariant
            i <= ids@.len(),
            ids@.len() == bodies@.len(),
            forall|k: int| 0 <= k < bodies@.len() ==> #[trigger] bodies@[k]@.len() == ids@[k]@.len(),
            numbered_bytes(out@) == start + lists_objects(ids@.take(i as int), bodies@.take(i as int)),
        decreases ids.len() - i,
    {
        assert(ids@.take(i + 1).drop_last() =~= ids@.take(i as int));
        assert(bodies@.take(i + 1).drop_last() =~= bodies@.take(i as int));
        assert(bodies@[i as int]@.len() == ids@[i as int]@.len());
        push_list(out, &ids[i], &bodies[i]);
        assert(numbered_bytes(out@) =~= start + lists_objects(
            ids@.take(i + 1),
            bodies@.take(i + 1),
        ));
        i = i + 1;
    }
    assert(ids@.take(i as int) =~= ids@);
    assert(bodies@.take(i as int) =~= bodies@);
}

fn push_images(
    out: &mut Vec<(u32, Vec<u8>)>,
    ids: &Vec<(u32, Option<u32>)>,
    bodies: &Vec<(Vec<u8>, Option<Vec<u8>>)>,
)
    requires
        ids@.len() == bodies@.len(),
        forall|j: int| 0 <= j < bodies@.len() ==> (#[trigger] bodies@[j].1 is Some) == (ids@[j].1 is Some),
    ensures
        numbered_bytes(final(out)@) == numbered_bytes(old(out)@) + image_objects_of(ids@, bodies@),
{
    let ghost start = numbered_bytes(out@);
    let mut i: usize = 0;
    assert(image_objects_of(ids@.take(0), bodies@.take(0)) =~= Seq::<(u32, Seq<u8>)>::empty());
    while i < ids.len()
        invariant
            i <= ids@.len(),
            ids@.len() == bodies@.len(),
            forall|j: int| 0 <= j < bodies@.len() ==> (#[trigger] bodies@[j].1 is Some) == (ids@[j].1 is Some),
            numbered_bytes(out@) == start + image_objects_of(ids@.take(i as int), bodies@.take(i as int)),
        decreases ids.len() - i,
    {
        assert(ids@.take(i + 1).drop_last() =~= ids@.take(i as int));
        assert(bodies@.take(i + 1).drop_last() =~= bodies@.take(i as int));
        let ghost before = numbered_bytes(out@);
        push_object(out, ids[i].0, &bodies[i].0);
        assert((bodies@[i as int].1 is Some) == (ids@[i as int].1 is Some));
        match (&ids[i].1, &bodies[i].1) {
            (Some(m), Some(b)) => {
                push_object(out, *m, b);
            },
            _ => {},
        }
        assert(numbered_bytes(out@) =~= start + image_objects_of(
            ids@.take(i + 1),
            bodies@.take(i + 1),
        ));
        i = i + 1;
    }
    assert(ids@.take(i as int) =~= ids@);
    assert(bodies@.take(i as int) =~= bodies@);
}

fn push_page_images(
    out: &mut Vec<(u32, Vec<u8>)>,
    ids: &Vec<Vec<(u32, Option<u32>)>>,
    bodies: &Vec<Vec<(Vec<u8>, Option<Vec<u8>>)>>,
)
    requires
        ids@.len() == bodies@.len(),
        forall|i: int|
            0 <= i < bodies@.len() ==> #[trigger] bodies@[i]@.len() == ids@[i]@.len() && forall|j: int|
                0 <= j < bodies@[i]@.len() ==> (#[trigger] bodies@[i]@[j].1 is Some) == (
                ids@[i]@[j].1 is Some),
    ensures
        numbered_bytes(final(out)@) == numbered_bytes(old(out)@) + page_image_objects(ids@, bodies@),
{
    let ghost start = numbered_bytes(out@);
    let mut i: usize = 0;
    assert(page_image_objects(ids@.take(0), bodies@.take(0)) =~= Seq::<(u32, Seq<u8>)>::empty());
    while i < ids.len()
        invariant
            i <= ids@.len(),
            ids@.len() == bodies@.len(),
            forall|k: int|
                0 <= k < bodies@.len() ==> #[trigger] bodies@[k]@.len() == ids@[k]@.len() && forall|j: int|
                    0 <= j < bodies@[k]@.len() ==> (#[trigger] bodies@[k]@[j].1 is Some) == (
                    ids@[k]@[j].1 is Some),
            numbered_bytes(out@) == start + page_image_objects(ids@.take(i as int), bodies@.take(i as int)),
        decreases ids.len() - i,
    {
        assert(ids@.take(i + 1).drop_last() =~= ids@.take(i as int));
        assert(bodies@.take(i + 1).drop_last() =~= bodies@.take(i as int));
        assert(bodies@[i as int]@.len() == ids@[i as int]@.len());
        push_images(out, &ids[i], &bodies[i]);
        assert(numbered_bytes(out@) =~= start + page_image_objects(
            ids@.take(i + 1),
            bodies@.take(i + 1),
        ));
        i = i + 1;
    }
    assert(ids@.take(i as int) =~= ids@);
    assert(bodies@.take(i as int) =~= bodies@);
}

/// Numbers the serialized objects at the end of a document from the plan
/// `p` and puts them in the order in which they are written: the
/// catalog, the page tree, the fonts (already numbered), each page and
/// its content stream, the images (each followed by its soft mask), the
/// annotations, the form fields, the interactive form when there is one,
/// and the information dictionary.
pub fn document_objects(
    p: &ObjectIdPlan,
    catalog: &Vec<u8>,
    pages: &Vec<u8>,
    fonts: &Vec<(u32, Vec<u8>)>,
    page_bodies: &Vec<(Vec<u8>, Vec<u8>)>,
    image_bodies: &Vec<Vec<(Vec<u8>, Option<Vec<u8>>)>>,
    annot_bodies: &Vec<Vec<Vec<u8>>>,
    field_bodies: &Vec<Vec<Vec<u8>>>,
    acroform: &Option<Vec<u8>>,
    info: &Vec<u8>,
) -> (r: Vec<(u32, Vec<u8>)>)
    requires
        bodies_fit(*p, page_bodies@, image_bodies@, annot_bodies@, field_bodies@, *acroform),
    ensures
        numbered_bytes(r@) == document_objects_spec(
            *p,
            catalog@,
            pages@,
            fonts@,
            page_bodies@,
            image_bodies@,
            annot_bodies@,
            field_bodies@,
            *acroform,
            info@,
        ),
        ids_of(r@) == write_order_ids(*p, ids_of(fonts@)),
{
    let mut out: Vec<(u32, Vec<u8>)> = Vec::new();
    assert(numbered_bytes(out@) =~= Seq::<(u32, Seq<u8>)>::empty());
    push_object(&mut out, p.catalog, catalog);
    push_object(&mut out, p.pages, pages);
    let ghost head = numbered_bytes(out@);
    let mut i: usize = 0;
    while i < fonts.len()
        invariant
            i <= fonts@.len(),
            numbered_bytes(out@) == head + numbered_bytes(fonts@.take(i as int)),
        decreases fonts.len() - i,
    {
        push_object(&mut out, fonts[i].0, &fonts[i].1);
        assert(numbered_bytes(fonts@.take(i + 1)) =~= numbered_bytes(fonts@.take(i as int)).push(
            (fonts@[i as int].0, fonts@[i as int].1@),
        ));
        i = i + 1;
    }
    assert(fonts@.take(i as int) =~= fonts@);
    push_pairs(&mut out, &p.page_ids, page_bodies);
    push_page_images(&mut out, &p.image_ids, image_bodies);
    push_lists(&mut out, &p.annot_ids, annot_bodies);
    push_lists(&mut out, &p.field_ids, field_bodies);
    let ghost mid = numbered_bytes(out@);
    match (&p.acroform, acroform) {
        (Some(a), Some(b)) => {
            push_object(&mut out, *a, b);
        },
        _ => {},
    }
    push_object(&mut out, p.info, info);
    assert(numbered_bytes(out@) =~= document_objects_spec(
        *p,
        catalog@,
        pages@,
        fonts@,
        page_bodies@,
        image_bodies@,
        annot_bodies@,
        field_bodies@,
        *acroform,
        info@,
    ));
    proof {
        lemma_document_object_ids(
            *p,
            catalog@,
            pages@,
            fonts@,
            page_bodies@,
            image_bodies@,
            annot_bodies@,
            field_bodies@,
            *acroform,
            info@,
        );
        assert(ids_of(out@) =~= ids_of(numbered_bytes(out@)));
    }
    out
}


proof fn lemma_ids_of_concat<B>(a: Seq<(u32, B)>, b: Seq<(u32, B)>)
    ensures
        ids_of(a + b) == ids_of(a) + ids_of(b),
{
    assert(ids_of(a + b) =~= ids_of(a) + ids_of(b));
}

proof fn lemma_pair_ids(ids: Seq<(u32, u32)>, bodies: Seq<(Vec<u8>, Vec<u8>)>)
    requires
        ids.len() == bodies.len(),
    ensures
        ids_of(pair_objects(ids, bodies)) == flat_pairs(ids),
    decreases ids.len(),
{
    if ids.len() > 0 {
        lemma_pair_ids(ids.drop_last(), bodies.drop_last());
        let tail = seq![(ids.last().0, bodies.last().0@), (ids.last().1, bodies.last().1@)];
        lemma_ids_of_concat(pair_objects(ids.drop_last(), bodies.drop_last()), tail);
        assert(ids_of(tail) =~= seq![ids.last().0, ids.last().1]);
    } else {
        assert(ids_of(pair_objects(ids, bodies)) =~= flat_pairs(ids));
    }
}

proof fn lemma_list_ids(ids: Seq<u32>, bodies: Seq<Vec<u8>>)
    requires
        ids.len() == bodies.len(),
    ensures
        ids_of(list_objects(ids, bodies)) == ids,
    decreases ids.len(),
{
    if ids.len() > 0 {
        lemma_list_ids(ids.drop_last(), bodies.drop_last());
        let prev = list_objects(ids.drop_last(), bodies.drop_last());
        assert(ids_of(prev.push((ids.last(), bodies.last()@))) =~= ids_of(prev).push(ids.last()));
        assert(ids =~= ids.drop_last().push(ids.last()));
    } else {
        assert(ids_of(list_objects(ids, bodies)) =~= ids);
    }
}

proof fn lemma_lists_ids(ids: Seq<Vec<u32>>, bodies: Seq<Vec<Vec<u8>>>)
    requires
        ids.len() == bodies.len(),
        forall|i: int| 0 <= i < bodies.len() ==> #[trigger] bodies[i]@.len() == ids[i]@.len(),
    ensures
        ids_of(lists_objects(ids, bodies)) == flat_lists(ids),
    decreases ids.len(),
{
    if ids.len() > 0 {
        assert(bodies.last()@.len() == ids.last()@.len()) by {
            assert(bodies[ids.len() - 1]@.len() == ids[ids.len() - 1]@.len());
        }
        lemma_lists_ids(ids.drop_last(), bodies.drop_last());
        lemma_list_ids(ids.last()@, bodies.last()@);
        lemma_ids_of_concat(
            lists_objects(ids.drop_last(), bodies.drop_last()),
            list_objects(ids.last()@, bodies.last()@),
        );
    } else {
        assert(ids_of(lists_objects(ids, bodies)) =~= flat_lists(ids));
    }
}

proof fn lemma_image_ids(ids: Seq<(u32, Option<u32>)>, bodies: Seq<(Vec<u8>, Option<Vec<u8>>)>)
    requires
        ids.len() == bodies.len(),
        forall|j: int| 0 <= j < bodies.len() ==> (#[trigger] bodies[j].1 is Some) == (ids[j].1 is Some),
    ensures
        ids_of(image_objects_of(ids, bodies)) == flat_images(ids),
    decreases ids.len(),
{
    if ids.len() > 0 {
        let n = ids.len() - 1;
        assert((bodies[n].1 is Some) == (ids[n].1 is Some));
        lemma_image_ids(ids.drop_last(), bodies.drop_last());
        let tail = match (ids.last().1, bodies.last().1) {
            (Some(m), Some(b)) => seq![(ids.last().0, bodies.last().0@), (m, b@)],
            _ => seq![(ids.last().0, bodies.last().0@)],
        };
        lemma_ids_of_concat(image_objects_of(ids.drop_last(), bodies.drop_last()), tail);
        match ids.last().1 {
            Some(m) => assert(ids_of(tail) =~= seq![ids.last().0, m]),
            None => assert(ids_of(tail) =~= seq![ids.last().0]),
        }
    } else {
        assert(ids_of(image_objects_of(ids, bodies)) =~= flat_images(ids));
    }
}

proof fn lemma_page_image_ids(
    ids: Seq<Vec<(u32, Option<u32>)>>,
    bodies: Seq<Vec<(Vec<u8>, Option<Vec<u8>>)>>,
)
    requires
        ids.len() == bodies.len(),
        forall|i: int|
            0 <= i < bodies.len() ==> #[trigger] bodies[i]@.len() == ids[i]@.len() && forall|j: int|
                0 <= j < bodies[i]@.len() ==> (#[trigger] bodies[i]@[j].1 is Some) == (
                ids[i]@[j].1 is Some),
    ensures
        ids_of(page_image_objects(ids, bodies)) == flat_page_images(ids),
    decreases ids.len(),
{
    if ids.len() > 0 {
        let n = ids.len() - 1;
        assert(bodies[n]@.len() == ids[n]@.len());
        lemma_page_image_ids(ids.drop_last(), bodies.drop_last());
        lemma_image_ids(ids.last()@, bodies.last()@);
        lemma_ids_of_concat(
            page_image_objects(ids.drop_last(), bodies.drop_last()),
            image_objects_of(ids.last()@, bodies.last()@),
        );
    } else {
        assert(ids_of(page_image_objects(ids, bodies)) =~= flat_page_images(ids));
    }
}

/// The objects at the end of a document carry, in order, the numbers of
/// [`write_order_ids`]: each number of the plan and of the fonts once.
pub proof fn lemma_document_object_ids(
    p: ObjectIdPlan,
    catalog: Seq<u8>,
    pages: Seq<u8>,
    fonts: Seq<(u32, Vec<u8>)>,
    page_bodies: Seq<(Vec<u8>, Vec<u8>)>,
    image_bodies: Seq<Vec<(Vec<u8>, Option<Vec<u8>>)>>,
    annot_bodies: Seq<Vec<Vec<u8>>>,
    field_bodies: Seq<Vec<Vec<u8>>>,
    acroform: Option<Vec<u8>>,
    info: Seq<u8>,
)
    requires
        bodies_fit(p, page_bodies, image_bodies, annot_bodies, field_bodies, acroform),
    ensures
        ids_of(
            document_objects_spec(
                p,
                catalog,
                pages,
                fonts,
                page_bodies,
                image_bodies,
                annot_bodies,
                field_bodies,
                acroform,
                info,
            ),
        ) == write_order_ids(p, ids_of(fonts)),
{
    lemma_pair_ids(p.page_ids@, page_bodies);
    lemma_page_image_ids(p.image_ids@, image_bodies);
    lemma_lists_ids(p.annot_ids@, annot_bodies);
    lemma_lists_ids(p.field_ids@, field_bodies);
    let a = seq![(p.catalog, catalog), (p.pages, pages)];
    let f = numbered_bytes(fonts);
    let b = pair_objects(p.page_ids@, page_bodies);
    let c = page_image_objects(p.image_ids@, image_bodies);
    let d = lists_objects(p.annot_ids@, annot_bodies);
    let e = lists_objects(p.field_ids@, field_bodies);
    let g: Seq<(u32, Seq<u8>)> = match (p.acroform, acroform) {
        (Some(x), Some(y)) => seq![(x, y@)],
        _ => Seq::empty(),
    };
    let h = seq![(p.info, info)];
    lemma_ids_of_concat(a, f);
    lemma_ids_of_concat(a + f, b);
    lemma_ids_of_concat(a + f + b, c);
    lemma_ids_of_concat(a + f + b + c, d);
    lemma_ids_of_concat(a + f + b + c + d, e);
    lemma_ids_of_concat(a + f + b + c + d + e, g);
    lemma_ids_of_concat(a + f + b + c + d + e + g, h);
    assert(ids_of(a) =~= seq![p.catalog, p.pages]);
    assert(ids_of(f) =~= ids_of(fonts));
    assert(ids_of(h) =~= seq![p.info]);
    match p.acroform {
        Some(x) => assert(ids_of(g) =~= seq![x]),
        None => assert(ids_of(g) =~= Seq::<u32>::empty()),
    }
    assert(ids_of(a + f + b + c + d + e + g + h) =~= write_order_ids(p, ids_of(fonts)));
}

/// When the fonts take the numbers from 1 up to the plan's first number
/// and the plan takes the rest up to its size, the write order holds each
/// number from 1 up to the size exactly once.
pub proof fn lemma_write_order_multiset(p: ObjectIdPlan, fonts: Seq<u32>)
    requires
        1 <= p.catalog <= p.size,
        plan_ids(p) == id_range(p.catalog as int, p.size as int),
        fonts == id_range(1, p.catalog as int),
    ensures
        write_order_ids(p, fonts).to_multiset() == id_range(1, p.size as int).to_multiset(),
{
    broadcast use vstd::seq_lib::lemma_multiset_commutative;

    let a = seq![p.catalog, p.pages];
    let b = flat_pairs(p.page_ids@);
    let c = flat_page_images(p.image_ids@);
    let d = flat_lists(p.annot_ids@);
    let e = flat_lists(p.field_ids@);
    let g: Seq<u32> = match p.acroform {
        Some(x) => seq![x],
        None => Seq::empty(),
    };
    let h = seq![p.info];
    assert(plan_ids(p) == a + b + d + e + c + g + h);
    assert(write_order_ids(p, fonts) == a + fonts + b + c + d + e + g + h);
    assert(id_range(1, p.size as int) =~= fonts + plan_ids(p));
    let ma = a.to_multiset();
    let mf = fonts.to_multiset();
    let mb = b.to_multiset();
    let mc = c.to_multiset();
    let md = d.to_multiset();
    let me = e.to_multiset();
    let mg = g.to_multiset();
    let mh = h.to_multiset();
    assert((a + fonts + b + c + d + e + g + h).to_multiset() =~= ma.add(mf).add(mb).add(mc).add(md).add(me).add(mg).add(mh));
    assert((fonts + (a + b + d + e + c + g + h)).to_multiset() =~= mf.add(ma.add(mb).add(md).add(me).add(mc).add(mg).add(mh)));
    assert(ma.add(mf).add(mb).add(mc).add(md).add(me).add(mg).add(mh) =~= mf.add(ma.add(mb).add(md).add(me).add(mc).add(mg).add(mh)));
}

proof fn lemma_insert_ids(s: Seq<(u32, usize)>, x: (u32, usize))
    ensures
        ids_of(insert_by_id(s, x)).to_multiset() == ids_of(s).to_multiset().insert(x.0),
    decreases s.len(),
{
    broadcast use vstd::seq_lib::group_to_multiset_ensures;

    if s.len() == 0 {
        assert(ids_of(insert_by_id(s, x)) =~= Seq::<u32>::empty().push(x.0));
        assert(ids_of(s) =~= Seq::<u32>::empty());
    } else if s.last().0 <= x.0 {
        assert(ids_of(s.push(x)) =~= ids_of(s).push(x.0));
    } else {
        let q = s.drop_last();
        lemma_insert_ids(q, x);
        assert(ids_of(insert_by_id(q, x).push(s.last())) =~= ids_of(insert_by_id(q, x)).push(
            s.last().0,
        ));
        assert(ids_of(s) =~= ids_of(q).push(s.last().0));
        assert(ids_of(q).to_multiset().insert(x.0).insert(s.last().0) =~= ids_of(q).to_multiset().insert(
            s.last().0,
        ).insert(x.0));
    }
}

proof fn lemma_sort_ids(s: Seq<(u32, usize)>)
    ensures
        ids_of(sort_by_id(s)).to_multiset() == ids_of(s).to_multiset(),
    decreases s.len(),
{
    broadcast use vstd::seq_lib::group_to_multiset_ensures;

    if s.len() > 0 {
        lemma_sort_ids(s.drop_last());
        lemma_insert_ids(sort_by_id(s.drop_last()), s.last());
        assert(ids_of(s) =~= ids_of(s.drop_last()).push(s.last().0));
    }
}

/// When the objects of a file carry each number from 1 up to `size`
/// exactly once, the cross-reference section lists, after the free entry
/// of object 0, one line for each object from 1 up to `size`, in order:
/// it covers the objects `0 .. size`.
pub proof fn lemma_xref_covers(base: nat, objs: Seq<(u32, Vec<u8>)>, size: nat)
    requires
        1 <= size <= u32::MAX + 1,
        ids_of(objs).to_multiset() == id_range(1, size as int).to_multiset(),
    ensures
        ids_of(sort_by_id(object_offsets(base, objs))) == id_range(1, size as int),
{
    let offs = object_offsets(base, objs);
    assert(ids_of(offs) =~= ids_of(objs));
    lemma_sort_ids(offs);
    lemma_sort_by_id_sorted(offs);
    let sorted = ids_of(sort_by_id(offs));
    let leq = |a: u32, b: u32| a <= b;
    assert(vstd::relations::sorted_by(sorted, leq)) by {
        assert forall|i: int, j: int| 0 <= i < j < sorted.len() implies #[trigger] leq(
            sorted[i],
            sorted[j],
        ) by {
            assert(sort_by_id(offs)[i].0 <= sort_by_id(offs)[j].0);
        }
    }
    assert(vstd::relations::sorted_by(id_range(1, size as int), leq));
    assert(vstd::relations::total_ordering(leq));
    vstd::seq_lib::lemma_sorted_unique(sorted, id_range(1, size as int), leq);
}

/// The cross-reference section at the end of a document covers every
/// object exactly once: when the fonts took the numbers from 1 up to the
/// plan's first one, the plan numbered the rest up to its size (as
/// [`plan_object_ids`](crate::writer::pdf_writer::plan_object_ids)
/// ensures), and the objects are written in the order of
/// [`document_objects`], the sorted cross-reference entries are the
/// objects 1, 2, ..., `size - 1`, each once.
pub proof fn lemma_document_xref_covers(
    p: ObjectIdPlan,
    fonts: Seq<u32>,
    base: nat,
    objs: Seq<(u32, Vec<u8>)>,
)
    requires
        1 <= p.catalog <= p.size,
        plan_ids(p) == id_range(p.catalog as int, p.size as int),
        fonts == id_range(1, p.catalog as int),
        ids_of(objs) == write_order_ids(p, fonts),
    ensures
        ids_of(sort_by_id(object_offsets(base, objs))) == id_range(1, p.size as int),
{
    lemma_write_order_multiset(p, fonts);
    lemma_xref_covers(base, objs, p.size as nat);
}

} // verus!
