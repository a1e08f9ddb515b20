use pomc::buckets::{indices_fit, BucketPool, DrawRange, BUCKET_INDICES, BUCKET_VERTICES, TOTAL_BUCKETS};

fn quad(base: u32) -> [u32; 6] {
    [base, base + 1, base + 2, base, base + 2, base + 3]
}

#[test]
fn small_mesh_takes_one_bucket() {
    let mut pool = BucketPool::new();
    let indices = quad(0).to_vec();
    assert!(indices_fit(&indices, 4));
    let up = pool.upload(7, 4, &indices).unwrap();
    assert_eq!(up.len(), 1);
    assert_eq!(up[0].bucket, 0);
    assert_eq!((up[0].vertex_start, up[0].vertex_end), (0, 4));
    assert_eq!(up[0].indices, indices);
    assert_eq!(pool.chunk_count(), 1);
    assert_eq!(pool.buckets_of(7).unwrap(), &vec![0]);
    assert_eq!(pool.draw_ranges(), vec![DrawRange { first_index: 0, vertex_offset: 0, index_count: 6 }]);
}

#[test]
fn large_mesh_is_split_between_buckets() {
    let mut pool = BucketPool::new();
    let mut indices = quad(0).to_vec();
    indices.extend_from_slice(&quad(BUCKET_VERTICES));
    let vertex_count = BUCKET_VERTICES as usize + 4;
    assert!(indices_fit(&indices, vertex_count));
    let up = pool.upload(1, vertex_count, &indices).unwrap();
    assert_eq!(up.len(), 2);
    assert_eq!(up[0].indices, quad(0).to_vec());
    assert_eq!(up[1].indices, quad(0).to_vec());
    assert_eq!((up[1].vertex_start, up[1].vertex_end), (32768, 32772));
    assert_eq!(
        pool.draw_ranges(),
        vec![
            DrawRange { first_index: 0, vertex_offset: 0, index_count: 6 },
            DrawRange { first_index: BUCKET_INDICES, vertex_offset: BUCKET_VERTICES as i32, index_count: 6 },
        ]
    );
}

#[test]
fn leftover_indices_go_to_the_last_bucket() {
    let mut pool = BucketPool::new();
    let mut indices = quad(0).to_vec();
    indices.extend_from_slice(&[5, 5, 5]);
    let up = pool.upload(3, 6, &indices).unwrap();
    assert_eq!(up[0].indices, vec![0, 1, 2, 0, 2, 3, 5, 5, 5]);
    assert_eq!(pool.draw_ranges()[0].index_count, 9);
}

#[test]
fn straddling_quad_does_not_fit() {
    let indices = vec![32766, 32767, 32768, 32766, 32768, 32769];
    assert!(!indices_fit(&indices, 32772));
    assert!(indices_fit(&quad(32768).to_vec(), 32772));
}

#[test]
fn reupload_and_remove_return_buckets() {
    let mut pool = BucketPool::new();
    pool.upload(1, 4, &quad(0).to_vec()).unwrap();
    pool.upload(2, 4, &quad(0).to_vec()).unwrap();
    assert_eq!(pool.buckets_of(2).unwrap(), &vec![1]);
    // uploading chunk 1 again gives back bucket 0 and takes the next free one
    let up = pool.upload(1, 4, &quad(0).to_vec()).unwrap();
    assert_eq!(up[0].bucket, 2);
    assert_eq!(pool.chunk_count(), 2);
    pool.remove(2);
    assert!(pool.buckets_of(2).is_none());
    assert_eq!(pool.chunk_count(), 1);
    // an empty mesh only gives the buckets back
    assert!(pool.upload(1, 0, &vec![]).is_none());
    assert_eq!(pool.chunk_count(), 0);
    assert!(pool.draw_ranges().is_empty());
}

#[test]
fn too_large_mesh_is_skipped() {
    let mut pool = BucketPool::new();
    let vertex_count = (TOTAL_BUCKETS as usize + 1) * BUCKET_VERTICES as usize;
    let indices = vec![0u32; 6];
    assert!(indices_fit(&indices, vertex_count));
    assert!(pool.upload(9, vertex_count, &indices).is_none());
    assert_eq!(pool.chunk_count(), 0);
}

#[test]
fn every_bucket_held_once() {
    let mut pool = BucketPool::new();
    for key in 0..10i64 {
        pool.upload(key, 4, &quad(0).to_vec()).unwrap();
    }
    pool.remove(3);
    pool.remove(8);
    pool.upload(3, 4, &quad(0).to_vec()).unwrap();
    let mut seen = std::collections::HashSet::new();
    for key in 0..10i64 {
        if let Some(b) = pool.buckets_of(key) {
            for x in b {
                assert!(seen.insert(*x));
            }
        }
    }
    assert_eq!(seen.len(), 9);
    pool.clear();
    assert_eq!(pool.chunk_count(), 0);
}

#[test]
fn draw_ranges_list_each_held_bucket_once() {
    let mut pool = BucketPool::new();
    pool.upload(4, 4, &quad(0).to_vec()).unwrap();
    pool.upload(-9, 4, &quad(0).to_vec()).unwrap();
    let mut ranges = pool.draw_ranges();
    ranges.sort_by_key(|r| r.first_index);
    assert_eq!(
        ranges,
        vec![
            DrawRange { first_index: 0, vertex_offset: 0, index_count: 6 },
            DrawRange { first_index: BUCKET_INDICES, vertex_offset: BUCKET_VERTICES as i32, index_count: 6 },
        ]
    );
}
