//! Drawable objects: vertex and index data waiting to be turned into GPU
//! buffers.  The object is generic in its vertex type, so the store of
//! vertex data is verified while the rendering layer chooses what a vertex
//! is.

use vstd::prelude::*;

verus! {

/// The six indices that draw one quadrilateral as two triangles, offset past
/// the `increment` quadrilaterals already indexed.
pub open spec fn quadrilateral_index_block(increment: int) -> Seq<u16> {
    let base = 4 * increment;
    seq![
        base as u16,
        (base + 1) as u16,
        (base + 2) as u16,
        (base + 2) as u16,
        (base + 3) as u16,
        base as u16,
    ]
}

/// A drawable object: its vertices, optional indices, and the pipeline that
/// is to draw it.
#[derive(Debug, PartialEq)]
pub struct VglObject<V> {
    pub vertices: Option<Vec<V>>,
    pub indices: Option<Vec<u16>>,

    pub pipeline_id: usize,
}

impl<V> VglObject<V> {
    /// An object holding the given vertex and index data, drawn by pipeline
    /// 0 until another is chosen.
    pub fn new(vertices: Option<Vec<V>>, indices: Option<Vec<u16>>) -> (r: VglObject<V>)
        ensures
            r.vertices == vertices,
            r.indices == indices,
            r.pipeline_id == 0,
    {
        Self { vertices, indices, pipeline_id: 0 }
    }

    /// The same object, drawn by the given pipeline.
    pub fn with_pipeline(self, pipeline_id: usize) -> (r: VglObject<V>)
        ensures
            r.vertices == self.vertices,
            r.indices == self.indices,
            r.pipeline_id == pipeline_id,
    {
        let mut this = self;
        this.pipeline_id = pipeline_id;

        this
    }

    /// The object's vertices; only an object built with vertices may be
    /// asked for them.
    pub fn get_vertices(&self) -> (r: &Vec<V>)
        requires
            self.vertices is Some,
        ensures
            self.vertices == Some(*r),
    {
        self.vertices.as_ref().unwrap()
    }

    /// The object's indices; only an object built with indices may be asked
    /// for them.
    pub fn get_indices(&self) -> (r: &Vec<u16>)
        requires
            self.indices is Some,
        ensures
            self.indices == Some(*r),
    {
        self.indices.as_ref().unwrap()
    }

    /// Whether the vertices form whole objects of `expected_number` vertices
    /// each; a supply that does not divide evenly is the caller's error.
    pub fn check_number_of_vertices(vertices: &Vec<V>, expected_number: usize) -> (r: bool)
        requires
            expected_number > 0,
        ensures
            r == ((vertices@.len() as int) % (expected_number as int) == 0),
    {
        vertices.len() % expected_number == 0
    }

    /// Append the six indices that draw the quadrilateral number `increment`
    /// as two triangles.
    pub fn generate_quadrilateral_indices(indices: &mut Vec<u16>, increment: usize)
        requires
            4 * increment + 3 <= u16::MAX,
        ensures
            final(indices)@ == old(indices)@ + quadrilateral_index_block(increment as int),
    {
        let index_increment = increment as u16 * 4;

        indices.push(0 + index_increment);
        indices.push(1 + index_increment);
        indices.push(2 + index_increment);
        indices.push(2 + index_increment);
        indices.push(3 + index_increment);
        indices.push(0 + index_increment);

        proof {
            assert(indices@ =~= old(indices)@ + quadrilateral_index_block(increment as int));
        }
    }
}

} // verus!
