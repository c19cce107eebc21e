use bytes::Bytes;
use ed25519_dalek::{Signer, SigningKey};
use freenet_core::performance::batching::{
    BatchConfig, BatchManager, BatchStats, Priority, PriorityQueue, ReceiveBuffer, ReceiverQueue,
    SendOperation, SenderQueue,
};
use freenet_core::performance::io_uring::{
    batch_user_data, FlushPlan, IoUringManager, IoUringSocket, IoUringStats, OperationType,
    UdpSendOp,
};
use freenet_core::performance::memory::{MemoryManager, MemoryStats, PooledBuffer, SizePool};
use freenet_core::performance::simd::{SimdCrypto, SimdError, SimdStats};
use freenet_core::performance::{
    PerformanceConfig, PerformanceEnhanced, PerformanceManager, PerformanceStats, Platform,
};
use freenet_core::ratio::Ratio;
use freenet_core::time::{Duration, Instant};

fn value(r: Ratio) -> f64 {
    r.numer as f64 / r.denom as f64
}

fn at(millis: u64) -> Instant {
    Instant { nanos: millis as u128 * 1_000_000 }
}

// ---------------------------------------------------------------------------
// Batching
// ---------------------------------------------------------------------------

#[test]
fn test_batch_manager_creation() {
    let manager = BatchManager::new(32);
    let stats = manager.get_stats();
    assert_eq!(stats.operations_queued, 0);
}

fn send(queue: &mut SenderQueue, stats: &mut BatchStats, text: &str, ticket: u64) {
    let addr = "127.0.0.1:8080".to_string();
    queue.queue_send(stats, text.as_bytes().to_vec(), addr, Priority::Normal, ticket, at(0));
}

#[test]
fn test_sender_queue_batching() {
    let config = BatchConfig {
        max_batch_size: 4,
        batch_timeout: Duration::from_millis(100),
        priority_levels: 3,
        adaptive_sizing: false,
        min_batch_size: 2,
        coalescing_window: Duration::from_millis(1),
    };

    let mut stats = BatchStats::default();
    let mut queue = SenderQueue::new(config, Priority::Normal, at(0));

    // Queue some operations
    let mut tickets = Vec::new();
    for i in 0..3 {
        send(&mut queue, &mut stats, &format!("message_{}", i), i);
        tickets.push(i);
    }

    // Should not flush yet (below max_batch_size)
    assert!(!queue.should_flush(at(0)));

    // Add one more to trigger flush
    send(&mut queue, &mut stats, "message_3", 3);
    tickets.push(3);

    // Now should flush
    assert!(queue.should_flush(at(0)));

    // Execute flush
    let done = queue.flush(&mut stats, at(0));

    // All operations should complete
    for ticket in tickets {
        assert!(done.iter().any(|c| c.ticket == ticket));
    }

    assert_eq!(stats.operations_queued, 4);
    assert_eq!(stats.operations_executed, 4);
    assert_eq!(stats.batches_flushed, 1);
    assert_eq!(stats.bytes_sent, 36);
}

fn operation(text: &str, priority: Priority) -> SendOperation {
    SendOperation {
        data: text.as_bytes().to_vec(),
        addr: "127.0.0.1:8080".to_string(),
        priority,
        ticket: 0,
        queued_at: at(0),
    }
}

#[test]
fn test_priority_queue_ordering() {
    let mut queue = PriorityQueue::new();

    // Create operations with different priorities
    let op1 = operation("low", Priority::Low);
    let op2 = operation("critical", Priority::Critical);
    let op3 = operation("normal", Priority::Normal);

    queue.push(op1, at(0));
    queue.push(op2, at(0));
    queue.push(op3, at(0));

    // Should pop in priority order: Critical, Normal, Low
    let first = queue.pop().unwrap();
    assert_eq!(first.priority, Priority::Critical);

    let second = queue.pop().unwrap();
    assert_eq!(second.priority, Priority::Normal);

    let third = queue.pop().unwrap();
    assert_eq!(third.priority, Priority::Low);
}

#[test]
fn test_batch_stats_calculations() {
    let mut stats = BatchStats::default();
    stats.operations_queued = 100;
    stats.operations_executed = 95;
    stats.batches_flushed = 10;

    let efficiency = value(stats.batching_efficiency());
    assert!((efficiency - 0.95).abs() < f64::EPSILON);

    let avg_batch_size = value(stats.avg_batch_size());
    assert!((avg_batch_size - 9.5).abs() < f64::EPSILON);
}

#[test]
fn test_receiver_queue_batching() {
    let config = BatchConfig {
        max_batch_size: 3,
        batch_timeout: Duration::from_millis(100),
        priority_levels: 3,
        adaptive_sizing: false,
        min_batch_size: 1,
        coalescing_window: Duration::from_millis(1),
    };

    let mut stats = BatchStats::default();
    let mut queue = ReceiverQueue::new(config, at(0));

    // Queue receive buffers
    let mut tickets = Vec::new();
    for i in 0..3 {
        tickets.push(i);
        queue.queue_receive(&mut stats, ReceiveBuffer { capacity: 1024, ticket: i });
    }

    // Should flush now
    assert!(queue.should_flush(at(0)));

    // Execute flush
    let done = queue.flush(&mut stats, at(0));

    // All receives should complete
    for ticket in tickets {
        let c = done.iter().find(|c| c.ticket == ticket).unwrap();
        assert_eq!(c.data, vec![0u8; 1024]);
        assert_eq!(c.addr, "127.0.0.1:8080");
    }

    assert_eq!(stats.receive_buffers_queued, 3);
    assert_eq!(stats.receive_buffers_processed, 3);
    assert_eq!(stats.bytes_received, 3072);
}

#[test]
fn test_adaptive_batch_sizing() {
    let config = BatchConfig {
        max_batch_size: 100,
        batch_timeout: Duration::from_millis(100),
        priority_levels: 3,
        adaptive_sizing: true,
        min_batch_size: 4,
        coalescing_window: Duration::from_millis(1),
    };

    let mut queue = SenderQueue::new(config, Priority::Normal, at(0));

    let original_size = queue.adaptive_batch_size;

    // Simulate high-throughput scenario (fast execution)
    queue.update_adaptive_batch_size(50, Duration::from_micros(10)); // High throughput

    let new_size = queue.adaptive_batch_size;
    assert!(new_size > original_size); // Should increase batch size

    // Simulate low-throughput scenario (slow execution)
    queue.update_adaptive_batch_size(10, Duration::from_millis(50)); // Low throughput

    let final_size = queue.adaptive_batch_size;
    assert!(final_size < new_size); // Should decrease batch size
    assert_eq!((original_size, new_size, final_size), (52, 57, 51));
}

#[test]
fn batches_go_by_priority_then_earliest_first() {
    let config = BatchConfig {
        max_batch_size: 10,
        batch_timeout: Duration::from_millis(100),
        priority_levels: 3,
        adaptive_sizing: false,
        min_batch_size: 1,
        coalescing_window: Duration::from_millis(1),
    };
    let mut stats = BatchStats::default();
    let mut queue = SenderQueue::new(config, Priority::Normal, at(0));
    let mut push = |ticket: u64, priority: Priority, now: Instant| {
        let addr = "127.0.0.1:8080".to_string();
        queue.queue_send(&mut stats, vec![0; ticket as usize], addr, priority, ticket, now)
    };
    push(1, Priority::Low, at(1));
    push(2, Priority::Normal, at(2));
    push(3, Priority::Normal, at(3));
    push(4, Priority::High, at(4));
    let done = queue.flush(&mut stats, at(10));
    let order: Vec<u64> = done.iter().map(|c| c.ticket).collect();
    assert_eq!(order, vec![4, 2, 3, 1]);
    assert_eq!(done[0].bytes, 4);
    assert_eq!(stats.total_latency_ns, (9 + 8 + 7 + 6) * 1_000_000);
    assert_eq!(value(stats.avg_operation_latency_ns()), 7_500_000.0);
}

#[test]
fn small_batches_start_at_their_largest_size() {
    let mut m = BatchManager::new(1);
    let i = m.create_sender_queue(Priority::Normal, at(0));
    assert_eq!(m.sender_queues[i].adaptive_batch_size, 1);
}

#[test]
fn queues_are_due_after_a_while() {
    let mut m = BatchManager::new(32);
    let i = m.create_sender_queue(Priority::Normal, at(0));
    let c = m.create_sender_queue(Priority::Critical, at(0));
    let addr = "127.0.0.1:8080".to_string();
    assert!(!m.sender_queues[i].should_flush(at(1000)));
    let mut stats = BatchStats::default();
    m.sender_queues[i].queue_send(&mut stats, vec![1], addr.clone(), Priority::Normal, 1, at(0));
    m.sender_queues[c].queue_send(&mut stats, vec![1], addr, Priority::Normal, 2, at(0));
    assert!(!m.sender_queues[i].should_flush(at(0)));
    assert!(m.sender_queues[c].should_flush(at(0)));
    assert!(m.sender_queues[i].should_flush(at(1000)));
    assert_eq!(m.flush_interval(), Duration::from_millis(5));
}

#[test]
fn critical_queues_are_flushed_first() {
    let mut m = BatchManager::new(32);
    let mut stats = BatchStats::default();
    let addr = || "127.0.0.1:8080".to_string();
    for (n, p) in [Priority::Low, Priority::Critical, Priority::Normal].into_iter().enumerate() {
        let i = m.create_sender_queue(p, at(0));
        m.sender_queues[i].queue_send(&mut stats, vec![1, 2], addr(), p, n as u64, at(0));
    }
    let r = m.create_receiver_queue(at(0));
    m.receiver_queues[r].queue_receive(&mut stats, ReceiveBuffer { capacity: 8, ticket: 9 });
    let out = m.flush_all_queues(at(1000));
    let order: Vec<u64> = out.sent.iter().map(|c| c.ticket).collect();
    assert_eq!(order, vec![1, 2, 0]);
    assert_eq!(out.received.len(), 1);
    let s = m.get_stats();
    assert_eq!(s.operations_executed, 3);
    assert_eq!(s.bytes_sent, 6);
    assert_eq!(s.receive_buffers_processed, 1);
    let again = m.flush_all_queues(at(2000));
    assert!(again.sent.is_empty() && again.received.is_empty());
}

#[test]
fn bytes_per_second() {
    let s = BatchStats { bytes_sent: 100, bytes_received: 50, ..Default::default() };
    assert_eq!(value(s.throughput_bps(Duration::from_millis(500))), 300.0);
}

// ---------------------------------------------------------------------------
// Ring
// ---------------------------------------------------------------------------

#[test]
fn test_io_uring_stats_calculations() {
    let stats = IoUringStats::default();

    // Test with zero values
    let duration = Duration::from_secs(1);
    assert_eq!(value(stats.ops_per_second(duration)), 0.0);
    assert_eq!(value(stats.throughput_bps(duration)), 0.0);
    assert_eq!(value(stats.error_rate()), 0.0);
}

#[test]
fn test_udp_send_op_clone() {
    let op = UdpSendOp { data: b"test".to_vec(), addr: "127.0.0.1:8080".to_string() };

    let cloned = op.clone();
    assert_eq!(op.data, cloned.data);
    assert_eq!(op.addr, cloned.addr);
}

#[test]
fn test_io_uring_stats_error_rate() {
    let mut stats = IoUringStats::default();
    stats.operations_completed = 80;
    stats.operations_failed = 20;

    let error_rate = value(stats.error_rate());
    assert!((error_rate - 0.2).abs() < f64::EPSILON);
}

#[test]
fn operations_are_submitted_in_order() {
    let mut m = IoUringManager::new(2);
    let op = || UdpSendOp { data: vec![1], addr: "127.0.0.1:1".to_string() };
    let a = m.send_batch(5, vec![op(), op()], at(0));
    let b = m.recv_batch(6, 1500, 4, at(1));
    let c = m.send_optimized(7, vec![2], "127.0.0.1:2".to_string(), at(2));
    assert_eq!((a, b, c), (0, 1, 2));
    assert_eq!(m.get_stats().operations_submitted, 0);
    let first = m.submit_queued_operations(0);
    assert_eq!(m.get_stats().operations_submitted, 2);
    let ids: Vec<u64> = first.iter().map(|o| o.id).collect();
    assert_eq!(ids, vec![a, b]);
    assert!(matches!(&first[0].op_type, OperationType::BatchSend(v) if v.len() == 2));
    assert!(matches!(
        first[1].op_type,
        OperationType::BatchRecv { buffer_size: 1500, count: 4 }
    ));
    assert!(m.submit_queued_operations(2).is_empty());
    let rest = m.submit_queued_operations(1);
    assert_eq!(rest.len(), 1);
    assert_eq!((rest[0].id, rest[0].socket), (c, 7));
    m.record_completion(10, at(0), at(30));
    assert_eq!(m.get_stats().avg_completion_latency_us, 30_000);
    m.record_completion(-1, at(0), at(2));
    assert_eq!(m.get_stats().avg_completion_latency_us, 16_000);
    m.record_completion(0, at(5), at(4));
    let s = m.get_stats();
    assert_eq!(s.avg_completion_latency_us, 10_666);
    assert_eq!(s.operations_submitted, 3);
    assert_eq!((s.operations_completed, s.operations_failed, s.bytes_transferred), (3, 1, 10));
    assert_ne!(batch_user_data(1, 0), batch_user_data(0, 1));
}

#[test]
fn sockets_send_through_the_ring_where_there_is_one() {
    let mut s = IoUringSocket::new(true);
    assert!(matches!(s.flush_batch(), FlushPlan::Nothing));
    s.queue_send(vec![1], "a".to_string());
    assert!(matches!(s.flush_batch(), FlushPlan::Ring(v) if v.len() == 1));
    assert!(s.batch_buffer.is_empty());
    let mut s = IoUringSocket::new(false);
    s.queue_send(vec![1], "a".to_string());
    assert!(matches!(s.flush_batch(), FlushPlan::OneByOne(v) if v.len() == 1));
}

// ---------------------------------------------------------------------------
// Memory
// ---------------------------------------------------------------------------

#[test]
fn test_memory_manager_creation() {
    let manager = MemoryManager::new(1024 * 1024); // 1MB pool
    let stats = manager.get_stats();
    assert_eq!(stats.buffer_allocations, 0);
}

#[test]
fn test_buffer_allocation() {
    let mut manager = MemoryManager::new(1024 * 1024);

    let buffer = manager.get_buffer(1024);
    assert_eq!(buffer.capacity(), 1024);
    assert!(buffer.is_empty());

    let stats = manager.get_stats();
    assert_eq!(stats.buffer_allocations, 1);
}

#[test]
fn test_buffer_reuse() {
    let mut manager = MemoryManager::new(1024 * 1024);

    // Allocate and return buffer
    let buffer = manager.get_buffer(1024);
    let capacity = buffer.capacity();
    manager.return_buffer(buffer);

    // Allocate again - should reuse
    let buffer2 = manager.get_buffer(1024);
    assert_eq!(buffer2.capacity(), capacity);

    let stats = manager.get_stats();
    assert_eq!(stats.buffer_allocations, 2);
    assert_eq!(stats.buffer_deallocations, 1);
}

#[test]
fn test_zero_copy_slice() {
    let mut manager = MemoryManager::new(1024 * 1024);

    let data = Bytes::from_static(b"Hello, World!");
    let slice = manager.zero_copy_slice(&data, 7, 5).unwrap();

    assert_eq!(slice.as_ref(), b"World");
    assert_eq!(slice.len(), 5);

    let stats = manager.get_stats();
    assert_eq!(stats.zero_copy_operations, 1);
}

#[test]
fn test_batch_allocation() {
    let mut manager = MemoryManager::new(1024 * 1024);

    let sizes = vec![512, 1024, 2048];
    let buffers = manager.allocate_batch(&sizes);

    assert_eq!(buffers.len(), 3);
    for (i, buffer) in buffers.iter().enumerate() {
        assert_eq!(buffer.capacity(), sizes[i]);
    }

    let stats = manager.get_stats();
    assert_eq!(stats.batch_allocations, 1);
    assert_eq!(stats.buffer_allocations, 3);
}

#[test]
fn test_pooled_buffer_operations() {
    let mut buffer = PooledBuffer::new(1024, Some(0));

    assert_eq!(buffer.capacity(), 1024);
    assert!(buffer.is_empty());

    buffer.extend_from_slice(b"test data");
    assert_eq!(buffer.len(), 9);
    assert_eq!(buffer.as_ref(), b"test data");

    buffer.clear();
    assert!(buffer.is_empty());
}

#[test]
fn test_memory_stats_calculations() {
    let mut stats = MemoryStats::default();
    stats.buffer_allocations = 100;
    stats.buffer_deallocations = 80;
    stats.allocation_time_ns = 1_000_000; // 1ms

    let efficiency = value(stats.memory_efficiency());
    assert!((efficiency - 0.8).abs() < f64::EPSILON);

    let avg_latency = value(stats.avg_allocation_latency_ns());
    assert!((avg_latency - 10_000.0).abs() < f64::EPSILON); // 10μs per allocation
}

#[test]
fn test_garbage_collection() {
    let mut manager = MemoryManager::new(1024 * 1024);

    // Allocate and return several buffers
    for _ in 0..10 {
        let buffer = manager.get_buffer(1024);
        manager.return_buffer(buffer);
    }

    // Run garbage collection
    let freed = manager.gc();
    assert!(freed > 0);

    let stats = manager.get_stats();
    assert_eq!(stats.gc_operations, 1);
    assert!(stats.bytes_freed > 0);
}

#[test]
fn buffers_change_in_place() {
    let mut b = PooledBuffer::new(16, None);
    b.resize(3, 7);
    b.as_mut()[1] = 9;
    assert_eq!(b.as_ref(), &[7, 9, 7]);
    b.extend_from_slice(&[1]);
    assert_eq!(b.len(), 4);
    b.resize(2, 0);
    let frozen = b.freeze();
    assert_eq!(frozen.as_ref(), &[7, 9]);
}

#[test]
fn buffers_have_room_for_what_was_asked() {
    let mut manager = MemoryManager::new(1024 * 1024);
    for size in [0, 1, 100, 512, 1000, 4096, 70_000, 2_000_000] {
        let mut b = manager.get_buffer(size);
        assert!(b.is_empty() && b.capacity() >= size);
        b.extend_from_slice(&[1, 2, 3]);
        b.resize(2, 0);
        assert!(b.capacity() >= size);
        b.clear();
        assert!(b.capacity() >= size);
    }
    let pooled = manager.get_buffer(1024);
    let capacity = pooled.capacity();
    manager.return_buffer(pooled);
    assert_eq!(manager.get_buffer(1024).capacity(), capacity);
}

#[test]
fn slices_stay_within_their_data() {
    let mut manager = MemoryManager::new(1024 * 1024);
    let data = Bytes::from_static(b"abc");
    assert_eq!(manager.zero_copy_slice(&data, 3, 0).unwrap().len(), 0);
    let err = manager.zero_copy_slice(&data, 2, 2).unwrap_err();
    assert_eq!(err.message(), "Slice bounds exceed data length");
    assert_eq!(manager.get_stats().zero_copy_operations, 1);
}

#[test]
fn pools_reuse_cleared_buffers() {
    let mut p = SizePool::new(64, 2);
    assert!(p.get_buffer().is_none());
    for i in 0..3 {
        let mut b = PooledBuffer::new(64, None);
        b.extend_from_slice(&[i; 5]);
        p.return_buffer(b);
    }
    assert_eq!(p.available_buffers.len(), 2);
    assert!(p.get_buffer().unwrap().is_empty());
}

// ---------------------------------------------------------------------------
// Manager
// ---------------------------------------------------------------------------

#[test]
fn test_performance_config_default() {
    let config = PerformanceConfig::default();
    assert_eq!(config.io_uring_queue_depth, 256);
    assert_eq!(config.network_batch_size, 32);
    assert_eq!(config.memory_pool_size, 1024 * 1024 * 16);

    // Platform-specific defaults
    assert!(config.enable_io_uring);
}

#[test]
fn test_performance_manager_creation() {
    let config = PerformanceConfig::default();
    let manager = PerformanceManager::new(config, Platform { linux: true, aes: true, sha: true });
    assert!(manager.io_uring().is_some());
    assert!(manager.simd_crypto().is_some());
    assert!(manager.memory_manager().is_some());
    assert!(manager.batch_manager().is_some());
    let stats = manager.get_stats();
    assert_eq!(stats.batch_stats, Some(BatchStats::default()));
}

#[test]
fn test_performance_enhanced_fallback() {
    let base_value = 42u32;
    let enhanced = PerformanceEnhanced::fallback_only(base_value);
    assert_eq!(enhanced.base, 42);
    assert!(!enhanced.has_optimizations());
}

#[test]
fn test_performance_stats_default() {
    let stats = PerformanceStats::default();
    // Should compile and create default stats
    let _stats = stats;
}

#[test]
fn the_ring_is_for_linux() {
    assert!(!PerformanceConfig::for_platform(false).enable_io_uring);
    assert!(PerformanceConfig::for_platform(true).enable_io_uring);
    let elsewhere = Platform { linux: false, aes: true, sha: true };
    assert!(PerformanceManager::new(PerformanceConfig::default(), elsewhere).io_uring().is_none());
}

#[test]
fn disabled_parts_are_absent() {
    let config = PerformanceConfig {
        enable_io_uring: false,
        enable_batching: false,
        ..Default::default()
    };
    let manager = PerformanceManager::new(config, Platform { linux: true, aes: false, sha: true });
    assert!(manager.io_uring().is_none());
    assert!(manager.batch_manager().is_none());
    assert!(!manager.simd_crypto().unwrap().aes_accelerated);
    assert!(manager.simd_crypto().unwrap().hash_accelerated);
    assert!(manager.get_stats().io_uring_stats.is_none());
    assert!(PerformanceEnhanced::new((), manager).has_optimizations());
}

// ---------------------------------------------------------------------------
// Batched cryptography
// ---------------------------------------------------------------------------

#[test]
fn test_simd_crypto_creation() {
    let crypto = SimdCrypto::new(true, true);
    let stats = crypto.get_stats();
    assert_eq!(stats.total_operations, 0);
}

#[test]
fn test_xor_parallel() {
    let mut crypto = SimdCrypto::new(true, true);
    let a = vec![0x12, 0x34, 0x56, 0x78];
    let b = vec![0xAB, 0xCD, 0xEF, 0x12];

    let result = crypto.xor_parallel(&a, &b).unwrap();
    let expected = vec![0xB9, 0xF9, 0xB9, 0x6A]; // Manual XOR

    assert_eq!(result, expected);
}

#[test]
fn test_xor_parallel_length_mismatch() {
    let mut crypto = SimdCrypto::new(true, true);
    let a = vec![1, 2, 3];
    let b = vec![4, 5];

    let result = crypto.xor_parallel(&a, &b);
    assert!(result.is_err());
}

#[test]
fn test_batch_encryption() {
    let mut crypto = SimdCrypto::new(true, true);

    let messages = vec![b"Hello".to_vec(), b"World".to_vec(), b"Test".to_vec()];

    let key = [0u8; 32];
    let nonces = [[1u8; 12], [2u8; 12], [3u8; 12]];

    let encrypted = crypto.encrypt_batch_aes_gcm(&messages, &key, &nonces).unwrap();
    assert_eq!(encrypted.len(), 3);

    // Each encrypted message should be different from plaintext
    for (i, encrypted_msg) in encrypted.iter().enumerate() {
        assert_ne!(encrypted_msg, &messages[i]);
    }
}

#[test]
fn test_batch_hashing() {
    let mut crypto = SimdCrypto::new(true, true);

    let inputs = vec![b"input1".to_vec(), b"input2".to_vec(), b"input3".to_vec()];

    let hashes = crypto.hash_batch_blake3(&inputs);
    assert_eq!(hashes.len(), 3);

    // Each hash should be different
    assert_ne!(hashes[0], hashes[1]);
    assert_ne!(hashes[1], hashes[2]);
}

#[test]
fn test_key_derivation_batch() {
    let mut crypto = SimdCrypto::new(true, true);

    let master_key = [0x42u8; 32];
    let salts = [[0x01u8; 32], [0x02u8; 32], [0x03u8; 32]];
    let info = b"test info";

    let derived_keys = crypto.derive_keys_batch(&master_key, &salts, info, 32).unwrap();
    assert_eq!(derived_keys.len(), 3);

    // Each derived key should be different
    for i in 0..derived_keys.len() {
        for j in i + 1..derived_keys.len() {
            assert_ne!(derived_keys[i], derived_keys[j]);
        }
    }
}

#[test]
fn test_simd_stats_calculations() {
    let mut stats = SimdStats::default();
    stats.simd_operations = 80;
    stats.fallback_operations = 20;

    let utilization = value(stats.simd_utilization());
    assert!((utilization - 0.8).abs() < f64::EPSILON);
}

#[test]
fn decryption_gives_back_what_was_encrypted() {
    let mut crypto = SimdCrypto::new(false, true);
    let messages = vec![b"".to_vec(), b"one".to_vec()];
    let key = [7u8; 32];
    let nonces = [[1u8; 12], [2u8; 12]];
    let sealed = crypto.encrypt_batch_aes_gcm(&messages, &key, &nonces).unwrap();
    assert_eq!(sealed[1].len(), 3 + 16);
    assert_eq!(crypto.decrypt_batch_aes_gcm(&sealed, &key, &nonces).unwrap(), messages);
    assert_eq!(crypto.get_stats().total_operations, 4);
    assert_eq!(crypto.get_stats().fallback_operations, 2);
    let mut broken = sealed.clone();
    broken[1][0] ^= 1;
    assert_eq!(
        crypto.decrypt_batch_aes_gcm(&broken, &key, &nonces),
        Err(SimdError::DecryptionFailed)
    );
    assert_eq!(crypto.get_stats().fallback_operations, 3);
    assert_eq!(crypto.get_stats().total_operations, 4);
    let mut fast = SimdCrypto::new(true, true);
    assert!(fast.decrypt_batch_aes_gcm(&broken, &key, &nonces).is_err());
    assert_eq!(fast.get_stats(), SimdStats::default());
    assert_eq!(
        crypto.decrypt_batch_aes_gcm(&[vec![1, 2]], &key, &nonces[..1]),
        Err(SimdError::DecryptionFailed)
    );
    assert_eq!(
        crypto.encrypt_batch_aes_gcm(&messages, &key, &nonces[..1]),
        Err(SimdError::MessageNonceMismatch)
    );
    assert_eq!(
        crypto.decrypt_batch_aes_gcm(&sealed, &key, &nonces[..1]),
        Err(SimdError::CiphertextNonceMismatch)
    );
}

#[test]
fn digests_are_those_of_blake3() {
    let mut crypto = SimdCrypto::new(true, false);
    let inputs = vec![vec![], b"input".to_vec()];
    let hashes = crypto.hash_batch_blake3(&inputs);
    assert_eq!(hashes[0], *blake3::hash(b"").as_bytes());
    assert_eq!(hashes[1], *blake3::hash(b"input").as_bytes());
    assert_eq!(crypto.get_stats().fallback_hash_operations, 1);
}

#[test]
fn derived_keys_have_a_longest_length() {
    let mut crypto = SimdCrypto::new(true, true);
    let salts = [[1u8; 32]];
    let keys = crypto.derive_keys_batch(&[2u8; 32], &salts, b"i", 8160).unwrap();
    assert_eq!(keys[0].len(), 8160);
    let mut expected = vec![0u8; 8160];
    hkdf::Hkdf::<sha2::Sha256>::new(Some(&salts[0]), &[2u8; 32])
        .expand(b"i", &mut expected)
        .unwrap();
    assert_eq!(keys[0], expected);
    assert_eq!(
        crypto.derive_keys_batch(&[2u8; 32], &salts, b"i", 8161),
        Err(SimdError::KeyDerivationFailed)
    );
}

#[test]
fn signatures_are_told_apart() {
    let mut crypto = SimdCrypto::new(true, true);
    let signer = SigningKey::from_bytes(&[3u8; 32]);
    let good = signer.sign(b"message").to_bytes();
    let key = signer.verifying_key().to_bytes();
    let messages = vec![b"message".to_vec(), b"another".to_vec()];
    let r = crypto.verify_signatures_batch(&messages, &[good, good], &[key, key]).unwrap();
    assert_eq!(r, vec![true, false]);
    assert_eq!(crypto.get_stats().signature_verifications, 2);
    assert_eq!(
        crypto.verify_signatures_batch(&messages, &[good], &[key, key]),
        Err(SimdError::SignatureMismatch)
    );
}

#[test]
fn xor_gives_back_its_argument() {
    let mut crypto = SimdCrypto::new(true, true);
    let a: Vec<u8> = (0..100).collect();
    let b: Vec<u8> = (0..100).map(|x| x * 2 + 1).collect();
    let x = crypto.xor_parallel(&a, &b).unwrap();
    assert_eq!(crypto.xor_parallel(&x, &b).unwrap(), a);
    assert_eq!(SimdError::LengthMismatch.message(), "Buffer length mismatch");
}
