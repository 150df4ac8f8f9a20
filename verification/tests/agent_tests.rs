use peepl_sim::Action;
use peepl_sim::Job;
use peepl_sim::Peepl;
use peepl_sim::ResourceKind;
use peepl_sim::TileKind;

fn peep(job: Job, holding: Option<ResourceKind>) -> Peepl {
    Peepl { position: (0, 0), holding, job }
}

#[test]
fn harvester_intends_to_gather_when_empty_handed() {
    assert_eq!(peep(Job::Harvester, None).step(), Action::Gather(TileKind::ResourceSite));
}

#[test]
fn harvester_intends_to_deposit_whatever_it_carries() {
    assert_eq!(
        peep(Job::Harvester, Some(ResourceKind::RawMaterial)).step(),
        Action::Deposit(TileKind::Settlement)
    );
    assert_eq!(
        peep(Job::Harvester, Some(ResourceKind::ProcessedMaterial)).step(),
        Action::Deposit(TileKind::Settlement)
    );
}

#[test]
fn processor_intends_to_gather_until_it_carries_processed_material() {
    assert_eq!(peep(Job::Processor, None).step(), Action::Gather(TileKind::Settlement));
    assert_eq!(
        peep(Job::Processor, Some(ResourceKind::RawMaterial)).step(),
        Action::Gather(TileKind::Settlement)
    );
    assert_eq!(
        peep(Job::Processor, Some(ResourceKind::ProcessedMaterial)).step(),
        Action::Deposit(TileKind::Settlement)
    );
}

#[test]
fn builder_intends_to_deposit_on_open_ground() {
    assert_eq!(peep(Job::Builder, None).step(), Action::Gather(TileKind::Settlement));
    assert_eq!(
        peep(Job::Builder, Some(ResourceKind::ProcessedMaterial)).step(),
        Action::Deposit(TileKind::Open)
    );
    assert_eq!(
        peep(Job::Builder, Some(ResourceKind::RawMaterial)).step(),
        Action::Deposit(TileKind::Open)
    );
}
