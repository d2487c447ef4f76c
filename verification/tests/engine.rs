use wasmplug::discovery::DirEntry;
use wasmplug::host::{HostError, PluginHost};
use wasmplug::level::{FooLogger, Level};
use wasmplug::lifecycle::{Action, Event, FaultKind, Lifecycle};
use wasmplug::state::PluginState;
use wasmtime::component::{Component, Instance, Linker, Resource, ResourceType, Val};
use wasmtime::{Config, Engine, Store, StoreContextMut};

const PLAIN: &str = r#"
(component
  (core module $m
    (memory (export "memory") 1)
    (data (i32.const 16) "Rustyplug")
    (func (export "init"))
    (func (export "get-name") (result i32)
      (i32.store (i32.const 0) (i32.const 16))
      (i32.store (i32.const 4) (i32.const 9))
      (i32.const 0)))
  (core instance $i (instantiate $m))
  (alias core export $i "memory" (core memory $memory))
  (func $init (canon lift (core func $i "init")))
  (func $get-name (result string)
    (canon lift (core func $i "get-name") (memory $memory)))
  (instance $plugin
    (export "init" (func $init))
    (export "get-name" (func $get-name)))
  (export "danini:wasmplug/plugin" (instance $plugin)))
"#;

const TRAPPING: &str = r#"
(component
  (core module $m
    (memory (export "memory") 1)
    (func (export "init") unreachable)
    (func (export "get-name") (result i32) (i32.const 0)))
  (core instance $i (instantiate $m))
  (alias core export $i "memory" (core memory $memory))
  (func $init (canon lift (core func $i "init")))
  (func $get-name (result string)
    (canon lift (core func $i "get-name") (memory $memory)))
  (instance $plugin
    (export "init" (func $init))
    (export "get-name" (func $get-name)))
  (export "danini:wasmplug/plugin" (instance $plugin)))
"#;

const ECHO: &str = r#"
(component
  (core module $m
    (memory (export "memory") 1)
    (data (i32.const 48) "Echo")
    (data (i32.const 64) "paras: Some(3), sentences: None, options: None")
    (data (i32.const 128) "changed on the way")
    (func (export "init"))
    (func (export "get-name") (result i32)
      (i32.store (i32.const 0) (i32.const 48))
      (i32.store (i32.const 4) (i32.const 4))
      (i32.const 0))
    (func (export "realloc") (param i32 i32 i32 i32) (result i32)
      (i32.const 1024))
    (func (export "generate")
      (param $p i32) (param $pv i32) (param $s i32) (param $sv i32)
      (param $o i32) (param $op i32) (param $ol i32) (result i32)
      (if (i32.and
            (i32.and (i32.eq (local.get $p) (i32.const 1)) (i32.eq (local.get $pv) (i32.const 3)))
            (i32.and (i32.eqz (local.get $s)) (i32.eqz (local.get $o))))
        (then
          (i32.store8 (i32.const 16) (i32.const 0))
          (i32.store (i32.const 20) (i32.const 64))
          (i32.store (i32.const 24) (i32.const 46)))
        (else
          (i32.store8 (i32.const 16) (i32.const 1))
          (i32.store (i32.const 20) (i32.const 128))
          (i32.store (i32.const 24) (i32.const 18))))
      (i32.const 16)))
  (core instance $i (instantiate $m))
  (alias core export $i "memory" (core memory $memory))
  (alias core export $i "realloc" (core func $realloc))
  (func $init (canon lift (core func $i "init")))
  (func $get-name (result string)
    (canon lift (core func $i "get-name") (memory $memory)))
  (func $generate
    (param "paras" (option u32))
    (param "sentences" (option u32))
    (param "options" (option (list string)))
    (result (result string (error string)))
    (canon lift (core func $i "generate") (memory $memory) (realloc $realloc)))
  (instance $plugin
    (export "init" (func $init))
    (export "get-name" (func $get-name)))
  (instance $lorem
    (export "generate" (func $generate)))
  (export "danini:wasmplug/plugin" (instance $plugin))
  (export "danini:wasmplug/lorem" (instance $lorem)))
"#;

const NEEDY: &str = r#"
(component
  (import "danini:wasmplug/host" (instance
    (export "do-the-thing" (func)))))
"#;

const LOGGING: &str = r#"
(component
  (import "danini:wasmplug/logging" (instance $logging
    (type $level (enum "error" "warn" "info" "debug" "trace"))
    (export "level" (type $lvl (eq $level)))
    (export "logger" (type $logger (sub resource)))
    (export "[constructor]logger"
      (func (param "max-level" $lvl) (result (own $logger))))
    (export "[method]logger.get-max-level"
      (func (param "self" (borrow $logger)) (result $lvl)))
    (export "[method]logger.set-max-level"
      (func (param "self" (borrow $logger)) (param "level" $lvl)))
    (export "[method]logger.log"
      (func (param "self" (borrow $logger)) (param "level" $lvl) (param "msg" string)))))
  (alias export $logging "logger" (type $logger))
  (alias export $logging "[constructor]logger" (func $new))
  (alias export $logging "[method]logger.get-max-level" (func $get))
  (alias export $logging "[method]logger.set-max-level" (func $set))
  (alias export $logging "[method]logger.log" (func $log))
  (core module $mem
    (memory (export "memory") 1)
    (data (i32.const 16) "initializing...")
    (data (i32.const 32) "fatal")
    (data (i32.const 48) "Chatty"))
  (core instance $memi (instantiate $mem))
  (alias core export $memi "memory" (core memory $memory))
  (core func $new' (canon lower (func $new)))
  (core func $get' (canon lower (func $get)))
  (core func $set' (canon lower (func $set)))
  (core func $log' (canon lower (func $log) (memory $memory)))
  (core func $drop' (canon resource.drop $logger))
  (core module $m
    (import "host" "memory" (memory 1))
    (import "host" "new" (func $new (param i32) (result i32)))
    (import "host" "get" (func $get (param i32) (result i32)))
    (import "host" "set" (func $set (param i32 i32)))
    (import "host" "log" (func $log (param i32 i32 i32 i32)))
    (import "host" "drop" (func $drop (param i32)))
    (func (export "init")
      (local $a i32)
      (local $b i32)
      (local.set $a (call $new (i32.const 1)))
      (local.set $b (call $new (i32.const 4)))
      (call $log (local.get $a) (i32.const 3) (i32.const 16) (i32.const 15))
      (call $log (local.get $a) (i32.const 0) (i32.const 32) (i32.const 5))
      (call $set (local.get $a) (call $get (local.get $b)))
      (call $log (local.get $a) (i32.const 3) (i32.const 16) (i32.const 15))
      (call $drop (local.get $b)))
    (func (export "get-name") (result i32)
      (i32.store (i32.const 0) (i32.const 48))
      (i32.store (i32.const 4) (i32.const 6))
      (i32.const 0)))
  (core instance $host
    (export "memory" (memory $memory))
    (export "new" (func $new'))
    (export "get" (func $get'))
    (export "set" (func $set'))
    (export "log" (func $log'))
    (export "drop" (func $drop')))
  (core instance $i (instantiate $m (with "host" (instance $host))))
  (func $init (canon lift (core func $i "init")))
  (func $get-name (result string)
    (canon lift (core func $i "get-name") (memory $memory)))
  (instance $plugin
    (export "init" (func $init))
    (export "get-name" (func $get-name)))
  (export "danini:wasmplug/plugin" (instance $plugin)))
"#;

struct Data {
    plugin: PluginState,
    printed: Vec<String>,
}

fn level_of(val: &Val) -> Level {
    match val {
        Val::Enum(name) => match name.as_str() {
            "error" => Level::Error,
            "warn" => Level::Warn,
            "info" => Level::Info,
            "debug" => Level::Debug,
            "trace" => Level::Trace,
            other => panic!("no level {other}"),
        },
        other => panic!("no level {other:?}"),
    }
}

fn name_of(level: Level) -> &'static str {
    match level {
        Level::Error => "error",
        Level::Warn => "warn",
        Level::Info => "info",
        Level::Debug => "debug",
        Level::Trace => "trace",
    }
}

fn refused<E: std::fmt::Debug>(e: E) -> wasmtime::Error {
    wasmtime::Error::msg(format!("{e:?}"))
}

fn logger_of(
    store: &mut StoreContextMut<'_, Data>,
    val: &Val,
) -> wasmtime::Result<wasmplug::table::ResourceHandle> {
    let Val::Resource(any) = val else { panic!("no resource") };
    let logger = Resource::<FooLogger>::try_from_resource_any(*any, &mut *store)?;
    assert!(!logger.owned());
    store
        .data()
        .plugin
        .table()
        .handle_at(logger.rep(), false)
        .ok_or_else(|| refused("NotFound"))
}

fn linker(engine: &Engine) -> Linker<Data> {
    let mut linker: Linker<Data> = Linker::new(engine);
    let mut logging = linker.instance("danini:wasmplug/logging").unwrap();
    logging
        .resource("logger", ResourceType::host::<FooLogger>(), |mut store, rep| {
            let data = store.data_mut();
            let handle =
                data.plugin.table().handle_at(rep, true).ok_or_else(|| refused("NotFound"))?;
            data.plugin.drop(handle).map_err(refused)
        })
        .unwrap();
    logging
        .func_new("[constructor]logger", |mut store, _, params, results| {
            let handle = store.data_mut().plugin.new(level_of(&params[0])).map_err(refused)?;
            let resource = Resource::<FooLogger>::new_own(handle.rep);
            results[0] = Val::Resource(resource.try_into_resource_any(&mut store)?);
            Ok(())
        })
        .unwrap();
    logging
        .func_new("[method]logger.get-max-level", |mut store, _, params, results| {
            let handle = logger_of(&mut store, &params[0])?;
            let level = store.data_mut().plugin.get_max_level(handle).map_err(refused)?;
            results[0] = Val::Enum(name_of(level).to_string());
            Ok(())
        })
        .unwrap();
    logging
        .func_new("[method]logger.set-max-level", |mut store, _, params, _| {
            let handle = logger_of(&mut store, &params[0])?;
            store.data_mut().plugin.set_max_level(handle, level_of(&params[1])).map_err(refused)
        })
        .unwrap();
    logging
        .func_new("[method]logger.log", |mut store, _, params, _| {
            let handle = logger_of(&mut store, &params[0])?;
            let Val::String(msg) = &params[2] else { panic!("no message") };
            let data = store.data_mut();
            let emitted =
                data.plugin.log(handle, level_of(&params[1]), msg.clone()).map_err(refused)?;
            if let Some(msg) = emitted {
                data.printed.push(msg);
            }
            Ok(())
        })
        .unwrap();
    linker
}

/// Drives one plugin as far as it goes and returns its store and instance,
/// if it got them.
fn drive(
    engine: &Engine,
    linker: &Linker<Data>,
    host: &mut PluginHost,
    id: usize,
    bytes: &[u8],
) -> Option<(Store<Data>, Instance)> {
    let mut component = None;
    let mut linked = None;
    let mut running = None;
    loop {
        let event = match host.next_action(id).unwrap() {
            Action::Compile => match Component::new(engine, bytes) {
                Ok(compiled) => {
                    component = Some(compiled);
                    Event::Compiled
                }
                Err(e) => Event::CompileFailed(format!("{e:#}")),
            },
            Action::Link => match linker.instantiate_pre(component.as_ref().unwrap()) {
                Ok(pre) => {
                    linked = Some(pre);
                    Event::Linked
                }
                Err(e) => Event::LinkFailed(format!("{e:#}")),
            },
            Action::Instantiate => {
                let data = Data { plugin: PluginState::for_instance(id), printed: Vec::new() };
                let mut store = Store::new(engine, data);
                match linked.as_ref().unwrap().instantiate(&mut store) {
                    Ok(instance) => {
                        running = Some((store, instance));
                        Event::Instantiated
                    }
                    Err(e) => Event::Trapped(format!("{e:#}")),
                }
            }
            Action::Initialize => {
                let (store, instance) = running.as_mut().unwrap();
                let plugin =
                    instance.get_export_index(&mut *store, None, "danini:wasmplug/plugin").unwrap();
                let init = instance.get_export_index(&mut *store, Some(&plugin), "init").unwrap();
                let init = instance.get_typed_func::<(), ()>(&mut *store, &init).unwrap();
                match init.call(&mut *store, ()).and_then(|()| init.post_return(&mut *store)) {
                    Ok(()) => Event::Initialized,
                    Err(e) => Event::Trapped(format!("{e:#}")),
                }
            }
            Action::QueryName => {
                let (store, instance) = running.as_mut().unwrap();
                let plugin =
                    instance.get_export_index(&mut *store, None, "danini:wasmplug/plugin").unwrap();
                let f = instance.get_export_index(&mut *store, Some(&plugin), "get-name").unwrap();
                let f = instance.get_typed_func::<(), (String,)>(&mut *store, &f).unwrap();
                match f.call(&mut *store, ()) {
                    Ok((name,)) => {
                        f.post_return(&mut *store).unwrap();
                        Event::Named(name)
                    }
                    Err(e) => Event::Trapped(format!("{e:#}")),
                }
            }
            Action::Serve | Action::Await | Action::Abandon => break,
        };
        host.advance(id, event).unwrap();
    }
    running
}

/// An engine that reserves no more address space than its guests use.
fn engine() -> Engine {
    let mut config = Config::new();
    config.memory_reservation(0);
    config.memory_reservation_for_growth(0);
    config.memory_guard_size(0);
    Engine::new(&config).unwrap()
}

fn file(path: &str) -> DirEntry {
    DirEntry { path: path.to_string(), is_file: true }
}

#[test]
fn compiled_plugin_loads_and_reports_its_name() {
    let engine = engine();
    let linker = linker(&engine);
    let mut host = PluginHost::new();
    let listing = vec![file("plugins/rustyplug.wasm")];
    let ids = host.discover(Some(&listing)).unwrap();
    assert_eq!(ids, vec![0]);
    let store = drive(&engine, &linker, &mut host, 0, PLAIN.as_bytes());
    assert!(store.is_some());
    assert_eq!(host.state_of(0), Some(Lifecycle::Ready));
    assert_eq!(host.descriptors().len(), 1);
    assert_eq!(host.descriptors()[0].name, "Rustyplug");
    assert_eq!(host.descriptors()[0].path, "plugins/rustyplug.wasm");
    assert!(host.failures().is_empty());
}

#[test]
fn corrupted_file_is_skipped_and_the_batch_goes_on() {
    let engine = engine();
    let linker = linker(&engine);
    let corrupted: &[u8] = b"\0asm\x0d\0\x01\0 this is no component";
    for corrupted_first in [true, false] {
        let mut host = PluginHost::new();
        let listing = if corrupted_first {
            vec![file("plugins/broken.wasm"), file("plugins/rustyplug.wasm")]
        } else {
            vec![file("plugins/rustyplug.wasm"), file("plugins/broken.wasm")]
        };
        for id in host.discover(Some(&listing)).unwrap() {
            let broken = host.path_of(id).unwrap() == "plugins/broken.wasm";
            let bytes = if broken { corrupted } else { PLAIN.as_bytes() };
            drive(&engine, &linker, &mut host, id, bytes);
        }
        assert_eq!(host.descriptors().len(), 1);
        assert_eq!(host.descriptors()[0].name, "Rustyplug");
        assert_eq!(host.descriptors()[0].path, "plugins/rustyplug.wasm");
        assert_eq!(host.failures().len(), 1);
        assert_eq!(host.failures()[0].path, "plugins/broken.wasm");
        assert_eq!(host.failures()[0].kind, FaultKind::Compile);
        assert!(!host.failures()[0].detail.is_empty());
    }
}

#[test]
fn module_with_an_import_the_host_lacks_fails_to_link() {
    let engine = engine();
    let linker = linker(&engine);
    let mut host = PluginHost::new();
    let listing = vec![file("plugins/needy.wasm"), file("plugins/rustyplug.wasm")];
    host.discover(Some(&listing)).unwrap();
    assert!(drive(&engine, &linker, &mut host, 0, NEEDY.as_bytes()).is_none());
    assert!(drive(&engine, &linker, &mut host, 1, PLAIN.as_bytes()).is_some());
    assert_eq!(host.state_of(0), Some(Lifecycle::Faulted));
    assert_eq!(host.failures().len(), 1);
    assert_eq!(host.failures()[0].kind, FaultKind::UnresolvedImport);
    assert!(host.failures()[0].detail.contains("danini:wasmplug/host"));
    assert_eq!(host.descriptors().len(), 1);
    assert_eq!(host.descriptors()[0].id, 1);
}

#[test]
fn trap_in_init_abandons_the_plugin() {
    let engine = engine();
    let linker = linker(&engine);
    let mut host = PluginHost::new();
    let listing = vec![file("plugins/trapping.wasm")];
    host.discover(Some(&listing)).unwrap();
    let store = drive(&engine, &linker, &mut host, 0, TRAPPING.as_bytes());
    assert!(store.is_some());
    assert_eq!(host.state_of(0), Some(Lifecycle::Faulted));
    assert!(host.descriptors().is_empty());
    assert_eq!(host.failures().len(), 1);
    assert_eq!(host.failures()[0].kind, FaultKind::Trap);
    assert_eq!(host.begin_invoke(0), Err(HostError::Faulted));
}

#[test]
fn guest_uses_the_logging_capability() {
    let engine = engine();
    let linker = linker(&engine);
    let mut host = PluginHost::new();
    let listing = vec![file("plugins/chatty.wasm")];
    host.discover(Some(&listing)).unwrap();
    let (mut store, _) = drive(&engine, &linker, &mut host, 0, LOGGING.as_bytes()).unwrap();
    assert_eq!(host.failures().len(), 0);
    assert_eq!(host.state_of(0), Some(Lifecycle::Ready));
    assert_eq!(host.descriptors()[0].name, "Chatty");
    let data = store.data_mut();
    assert_eq!(data.printed, vec!["fatal".to_string(), "initializing...".to_string()]);
    assert_eq!(data.plugin.table().len(), 1);
    assert_eq!(data.plugin.table().issued(), 2);
    assert_eq!(data.plugin.teardown(), vec![FooLogger { max_level: Level::Trace }]);
    assert_eq!(data.plugin.table().len(), 0);
}

type Request = (Option<u32>, Option<u32>, Option<Vec<String>>);

#[test]
fn request_reaches_the_guest_unchanged() {
    let engine = engine();
    let linker = linker(&engine);
    let mut host = PluginHost::new();
    let listing = vec![file("plugins/echo.wasm")];
    host.discover(Some(&listing)).unwrap();
    let (mut store, instance) = drive(&engine, &linker, &mut host, 0, ECHO.as_bytes()).unwrap();
    assert_eq!(host.descriptors()[0].name, "Echo");
    let lorem = instance.get_export_index(&mut store, None, "danini:wasmplug/lorem").unwrap();
    let generate = instance.get_export_index(&mut store, Some(&lorem), "generate").unwrap();
    let generate = instance
        .get_typed_func::<Request, (Result<String, String>,)>(&mut store, &generate)
        .unwrap();

    assert_eq!(host.begin_invoke(0), Ok(()));
    let (reply,) = generate.call(&mut store, (Some(3), None, None)).unwrap();
    generate.post_return(&mut store).unwrap();
    assert_eq!(host.finish_invoke(0, None), Ok(()));
    assert_eq!(reply, Ok("paras: Some(3), sentences: None, options: None".to_string()));

    assert_eq!(host.begin_invoke(0), Ok(()));
    let (reply,) = generate.call(&mut store, (Some(4), None, None)).unwrap();
    generate.post_return(&mut store).unwrap();
    assert_eq!(host.finish_invoke(0, None), Ok(()));
    assert_eq!(reply, Err("changed on the way".to_string()));
    assert_eq!(host.state_of(0), Some(Lifecycle::Ready));
    assert!(host.failures().is_empty());
}
