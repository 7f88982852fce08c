use hyle::bus::BusError;
use hyle::signal::{
    receive_shutdown_event, receive_shutdown_start, shutdown_aware_result, shutdown_matches, Raced,
    ShutdownCompleted, ShutdownModule, ShutdownScope, ShutdownWatch, SignalError,
};
use hyle::supervisor::{
    countdown_starts, module_ended, LoopStep, ModulesHandler, SupervisorError, GENESIS_MODULE,
    MODULE_SHUTDOWN_TIMEOUT, SHUTDOWN_SAFETY_TIMEOUT,
};

const TM_USIZE: &str = "hyle::tests::TestModule<usize>";
const TM_STRING: &str = "hyle::tests::TestModule<alloc::string::String>";
const TM_BOOL: &str = "hyle::tests::TestModule<bool>";
const TM_U64: &str = "hyle::tests::TestModule<u64>";
const TM_U32: &str = "hyle::tests::TestModule<u32>";

fn shutdown(name: &str) -> ShutdownModule {
    ShutdownModule {
        module: name.to_string(),
    }
}

fn completed(name: &str) -> ShutdownCompleted {
    ShutdownCompleted {
        module: name.to_string(),
    }
}

fn started(names: &[&str]) -> ModulesHandler {
    let mut handler = ModulesHandler::new();
    for name in names {
        handler.add_module(name).unwrap();
    }
    assert_eq!(
        handler.start_modules(),
        Ok(names.iter().map(|n| n.to_string()).collect::<Vec<_>>())
    );
    handler
}

/// Runs the loop that waits for shutdowns on the completions of the modules
/// that are told to shut down, after `first` has ended on its own.
fn cascade(handler: &mut ModulesHandler, first: &str) -> (Vec<String>, Vec<String>) {
    let mut told = vec![];
    let mut ended = vec![first.to_string()];
    let mut next = Some(completed(first));
    while let Some(msg) = next.take() {
        match handler.on_shutdown_completed(&msg) {
            LoopStep::Publish(m) => {
                told.push(m.module.clone());
                let done = module_ended(&m.module);
                ended.push(done.module.clone());
                next = Some(done);
            }
            LoopStep::Wait => panic!("the loop waits though a module was told to shut down"),
            LoopStep::Exit => {}
        }
    }
    (told, ended)
}

#[test]
fn test_add_module() {
    let mut handler = ModulesHandler::new();
    assert_eq!(handler.add_module(TM_USIZE), Ok(()));
    assert_eq!(handler.pending_modules().len(), 1);
    assert!(handler.started_modules().is_empty());
    assert!(!handler.shutdown_loop());
}

#[test]
fn test_start_modules() {
    let mut handler = started(&[TM_USIZE]);
    assert_eq!(handler.shutdown_next_module(), Some(shutdown(TM_USIZE)));
    assert_eq!(module_ended(TM_USIZE), completed(TM_USIZE));
    assert_eq!(handler.shutdown_next_module(), None);
}

#[test]
fn test_start_stop_modules_in_order() {
    let mut handler = started(&[TM_USIZE, TM_STRING]);
    let (first, wait) = handler.shutdown_modules();
    assert_eq!(first, Some(shutdown(TM_STRING)));
    assert!(wait);
    assert!(handler.shutdown_loop());
    assert_eq!(
        handler.on_shutdown_completed(&completed(TM_STRING)),
        LoopStep::Publish(shutdown(TM_USIZE))
    );
    assert_eq!(
        handler.on_shutdown_completed(&completed(TM_USIZE)),
        LoopStep::Exit
    );
    assert_eq!(
        handler.shut_modules(),
        &vec![TM_STRING.to_string(), TM_USIZE.to_string()]
    );
    assert!(handler.started_modules().is_empty());
}

#[test]
fn test_shutdown_modules_exactly_once() {
    let mut handler = started(&[TM_USIZE, TM_STRING, TM_BOOL]);
    let (first, wait) = handler.shutdown_modules();
    assert!(wait);
    let mut told = vec![first.unwrap().module];
    let mut msg = completed(TM_BOOL);
    loop {
        match handler.on_shutdown_completed(&msg) {
            LoopStep::Publish(m) => {
                msg = completed(&m.module);
                told.push(m.module);
            }
            LoopStep::Wait => panic!("nothing to wait for"),
            LoopStep::Exit => break,
        }
    }
    assert_eq!(told, vec![TM_BOOL, TM_STRING, TM_USIZE]);
    assert_eq!(
        handler.on_shutdown_completed(&completed(TM_BOOL)),
        LoopStep::Wait
    );
}

#[test]
fn test_shutdown_all_modules_if_one_fails() {
    let mut handler = started(&[TM_USIZE, TM_STRING, TM_U64, TM_BOOL]);
    let (told, ended) = cascade(&mut handler, TM_U64);
    assert_eq!(ended, vec![TM_U64, TM_BOOL, TM_STRING, TM_USIZE]);
    assert_eq!(told, vec![TM_BOOL, TM_STRING, TM_USIZE]);
    assert!(!handler.shutdown_loop());
}

#[test]
fn test_shutdown_all_modules_if_one_module_panics() {
    let mut handler = started(&[TM_USIZE, TM_STRING, TM_U32, TM_BOOL]);
    assert_eq!(module_ended(TM_U32), completed(TM_U32));
    let (told, ended) = cascade(&mut handler, TM_U32);
    assert_eq!(ended, vec![TM_U32, TM_BOOL, TM_STRING, TM_USIZE]);
    assert_eq!(told, vec![TM_BOOL, TM_STRING, TM_USIZE]);
}

#[test]
fn the_safety_timer_turns_to_the_next_module() {
    let mut handler = started(&[TM_USIZE, TM_STRING, TM_BOOL]);
    assert_eq!(handler.on_safety_timer(), None);
    assert_eq!(
        handler.on_shutdown_completed(&completed(TM_BOOL)),
        LoopStep::Publish(shutdown(TM_STRING))
    );
    assert_eq!(handler.on_safety_timer(), Some(shutdown(TM_USIZE)));
    assert_eq!(handler.on_safety_timer(), None);
    assert!(!handler.shutdown_loop());
    assert_eq!(MODULE_SHUTDOWN_TIMEOUT, 5);
    assert_eq!(SHUTDOWN_SAFETY_TIMEOUT, 6);
}

#[test]
fn the_genesis_module_is_not_supervised() {
    assert!(!ModulesHandler::long_running_module(GENESIS_MODULE));
    assert!(!ModulesHandler::long_running_module("hyle::genesis::Genesis"));
    assert!(ModulesHandler::long_running_module(TM_USIZE));
    let mut handler = ModulesHandler::new();
    handler.add_module(TM_USIZE).unwrap();
    handler.add_module(GENESIS_MODULE).unwrap();
    handler.add_module(TM_BOOL).unwrap();
    assert_eq!(
        handler.start_modules(),
        Ok(vec![
            TM_USIZE.to_string(),
            GENESIS_MODULE.to_string(),
            TM_BOOL.to_string()
        ])
    );
    assert_eq!(
        handler.started_modules(),
        &vec![TM_USIZE.to_string(), TM_BOOL.to_string()]
    );
    assert!(handler.pending_modules().is_empty());
    assert_eq!(
        handler.on_shutdown_completed(&completed(GENESIS_MODULE)),
        LoopStep::Wait
    );
    assert!(handler.shut_modules().is_empty());
}

#[test]
fn modules_cannot_be_started_while_others_run() {
    let mut handler = started(&[TM_USIZE]);
    handler.add_module(TM_BOOL).unwrap();
    assert_eq!(
        handler.start_modules(),
        Err(SupervisorError::AlreadyRunning)
    );
    assert_eq!(handler.pending_modules(), &vec![TM_BOOL.to_string()]);
    let mut only_genesis = started(&[GENESIS_MODULE]);
    only_genesis.add_module(TM_BOOL).unwrap();
    assert_eq!(only_genesis.start_modules(), Ok(vec![TM_BOOL.to_string()]));
}

#[test]
fn the_watchdog_starts_on_the_shutdown_of_its_module() {
    assert!(countdown_starts(TM_USIZE, &Ok(shutdown(TM_USIZE))));
    assert!(!countdown_starts(TM_USIZE, &Ok(shutdown(TM_BOOL))));
    assert!(!countdown_starts(TM_USIZE, &Err(BusError::ChannelClosed)));
    assert!(!countdown_starts(TM_USIZE, &Err(BusError::Lagged(3))));
}

#[test]
fn a_listener_hears_the_shutdowns_that_are_meant_for_it() {
    let mine = ShutdownScope::Module(TM_USIZE.to_string());
    assert!(shutdown_matches(&mine, &shutdown(TM_USIZE)));
    assert!(!shutdown_matches(&mine, &shutdown(TM_BOOL)));
    assert!(shutdown_matches(&ShutdownScope::Any, &shutdown(TM_BOOL)));

    assert_eq!(receive_shutdown_start(false), ShutdownWatch::Listen);
    assert_eq!(receive_shutdown_start(true), ShutdownWatch::Linger);

    let mut flag = false;
    assert_eq!(
        receive_shutdown_event(&mine, &mut flag, &Ok(shutdown(TM_BOOL))),
        ShutdownWatch::Listen
    );
    assert!(!flag);
    assert_eq!(
        receive_shutdown_event(&mine, &mut flag, &Err(BusError::ChannelClosed)),
        ShutdownWatch::Fail
    );
    assert!(!flag);
    assert_eq!(
        receive_shutdown_event(&mine, &mut flag, &Ok(shutdown(TM_USIZE))),
        ShutdownWatch::Shutdown
    );
    assert!(flag);
    let mut any = false;
    assert_eq!(
        receive_shutdown_event(&ShutdownScope::Any, &mut any, &Ok(shutdown(TM_BOOL))),
        ShutdownWatch::Shutdown
    );
    assert!(any);
}

#[test]
fn work_that_heeds_shutdowns() {
    assert_eq!(shutdown_aware_result(Raced::Finished(7)), Ok(7));
    assert_eq!(
        shutdown_aware_result(Raced::<u8>::Shutdown),
        Err(SignalError::ShutdownReceived)
    );
    assert_eq!(
        shutdown_aware_result(Raced::<u8>::Timeout),
        Err(SignalError::TimeoutReached)
    );
}
