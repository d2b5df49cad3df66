use ray_tracer::bounds::{BoundingBox, Vec3};
use ray_tracer::material::Material;
use ray_tracer::model::{Model, ObjLoader};
use ray_tracer::object::Object;
use ray_tracer::shapes::{Shape, SmoothTriangle, Triangle};
use ray_tracer::transformations::Transform;

/// Four vertices: the vertex `k` lies at (10k, 10k + 1, 10k + 2).
fn positions() -> Vec<i64> {
    vec![0, 1, 2, 10, 11, 12, 20, 21, 22, 30, 31, 32]
}

fn at(k: i64) -> Vec3 {
    Vec3::new(10 * k, 10 * k + 1, 10 * k + 2)
}

fn faces_of(group: &Object) -> Vec<Shape> {
    match group.shape() {
        Shape::Group(g) => g.objects().iter().map(|o| o.shape().clone()).collect(),
        _ => panic!("a model is a group"),
    }
}

#[test]
fn the_faces_of_a_model_are_triangles_in_a_group() {
    let model = Model { positions: positions(), normals: vec![], indices: vec![0, 1, 2, 3, 2, 0] };
    let group = model.group().unwrap();
    assert_eq!(
        faces_of(&group),
        vec![
            Shape::Triangle(Triangle::new(at(0), at(1), at(2))),
            Shape::Triangle(Triangle::new(at(3), at(2), at(0))),
        ]
    );
    // the group and the triangles are new objects
    assert_eq!(group.id(), 0);
    assert_eq!(*group.material(), Material::default());
    assert_eq!(*group.transform(), Transform::identity());
    assert_eq!(*group.bounds(), BoundingBox::new(at(0), at(3)));
    match group.shape() {
        Shape::Group(g) => {
            let first = &g.objects()[0];
            assert_eq!(*first, Object::new(Shape::Triangle(Triangle::new(at(0), at(1), at(2)))));
            assert_eq!(*first.bounds(), BoundingBox::new(at(0), at(2)));
        }
        _ => unreachable!(),
    }
}

#[test]
fn a_model_with_normals_has_smooth_faces() {
    let normals: Vec<i64> = positions().iter().map(|x| -x).collect();
    let model = Model { positions: positions(), normals, indices: vec![3, 1, 2] };
    let n = |k: i64| Vec3::new(-10 * k, -10 * k - 1, -10 * k - 2);
    assert_eq!(
        faces_of(&model.group().unwrap()),
        vec![Shape::SmoothTriangle(SmoothTriangle::new(at(3), at(1), at(2), n(3), n(1), n(2)))]
    );
}

#[test]
fn a_model_without_faces_is_an_empty_group() {
    let model = Model { positions: positions(), normals: vec![], indices: vec![] };
    assert_eq!(faces_of(&model.group().unwrap()), vec![]);
    let nothing = Model { positions: vec![], normals: vec![], indices: vec![] };
    assert_eq!(faces_of(&nothing.group().unwrap()), vec![]);
}

#[test]
fn a_model_that_is_not_whole_has_no_group() {
    let with = |normals: Vec<i64>, indices: Vec<u32>| {
        Model { positions: positions(), normals, indices }.group().is_some()
    };
    assert!(with(vec![], vec![0, 1, 3]));
    // a vertex that the positions do not hold
    assert!(!with(vec![], vec![0, 1, 4]));
    assert!(!with(vec![], vec![u32::MAX, 1, 2]));
    // indices that do not come in threes
    assert!(!with(vec![], vec![0, 1]));
    assert!(!with(vec![], vec![0, 1, 2, 3]));
    // a vertex that the normals do not hold
    assert!(with(vec![0; 12], vec![0, 1, 3]));
    assert!(!with(vec![0; 9], vec![0, 1, 3]));
    assert!(!with(vec![0; 11], vec![0, 1, 3]));
    // the last position is cut short
    let short = Model { positions: vec![0; 11], normals: vec![], indices: vec![0, 1, 3] };
    assert!(short.group().is_none());
}

#[test]
fn every_model_of_a_scene_gets_a_group() {
    let one = Model { positions: positions(), normals: vec![], indices: vec![0, 1, 2] };
    let two = Model { positions: positions(), normals: vec![], indices: vec![1, 2, 3, 3, 2, 1] };
    let objects = ObjLoader::from_models(&vec![one, two]).unwrap().objects();
    assert_eq!(objects.len(), 2);
    assert_eq!(faces_of(&objects[0]).len(), 1);
    assert_eq!(
        faces_of(&objects[1]),
        vec![
            Shape::Triangle(Triangle::new(at(1), at(2), at(3))),
            Shape::Triangle(Triangle::new(at(3), at(2), at(1))),
        ]
    );
    assert_eq!(ObjLoader::from_models(&vec![]).unwrap().objects().len(), 0);
    let whole = Model { positions: positions(), normals: vec![], indices: vec![0, 1, 2] };
    let broken = Model { positions: positions(), normals: vec![], indices: vec![0, 1, 9] };
    assert!(ObjLoader::from_models(&vec![whole, broken]).is_none());
}
